//! The boxed console screen of the boot sequence: borders, framed lines,
//! the interface table and the adapter descriptions, plus the choice of
//! broadcast address for the console's subnet.

use vstd::prelude::*;
use crate::network::LocalInterface;
use crate::text::{
    chars_of, contains, contains_chars, decimal, ipv4_text, lowercase, push_char, push_decimal,
    push_ipv4, starts_with, starts_with_chars, to_lowercase,
};

verus! {

/// Width of the box, in characters, borders included.
pub const WIDTH: usize = 57;

/// Width of the text inside a framed line.
pub const INNER: usize = 53;

/// The characters of `s` followed by spaces up to `width` characters, as
/// `{:<width$}` writes them.
pub open spec fn padded_right(s: Seq<char>, width: nat) -> Seq<char> {
    if s.len() >= width {
        s
    } else {
        s + Seq::new((width - s.len()) as nat, |i: int| ' ')
    }
}

/// At most the first `n` characters of `s`.
pub open spec fn first_chars(s: Seq<char>, n: nat) -> Seq<char> {
    if s.len() > n {
        s.take(n as int)
    } else {
        s
    }
}

/// A framed line: `│`, two spaces, the text cut to 53 characters and padded
/// with spaces to 53, two spaces, `│`.
pub open spec fn framed(text: Seq<char>) -> Seq<char> {
    seq!['│', ' ', ' '] + padded_right(first_chars(text, INNER as nat), INNER as nat) + seq![
        ' ',
        ' ',
        '│',
    ]
}

/// A horizontal border: `left`, 55 `─`, `right`.
pub open spec fn border(left: char, right: char) -> Seq<char> {
    seq![left] + Seq::new((WIDTH - 2) as nat, |i: int| '─') + seq![right]
}

/// Appends `n` copies of `c` to `s`.
fn push_repeated(s: &mut String, c: char, n: usize)
    ensures
        final(s)@ == old(s)@ + Seq::new(n as nat, |i: int| c),
{
    let ghost s0 = s@;
    let mut i: usize = 0;
    while i < n
        invariant
            i <= n,
            s@ == s0 + Seq::new(i as nat, |j: int| c),
        decreases n - i,
    {
        push_char(s, c);
        i = i + 1;
        assert(s@ =~= s0 + Seq::new(i as nat, |j: int| c));
    }
}

/// A horizontal border: `left`, 55 `─`, `right`.
fn border_line(left: char, right: char) -> (s: String)
    ensures
        s@ == border(left, right),
{
    let mut s = String::new();
    push_char(&mut s, left);
    push_repeated(&mut s, '─', WIDTH - 2);
    push_char(&mut s, right);
    assert(s@ =~= border(left, right));
    s
}

/// The top border of the box.
pub fn top_border() -> (s: String)
    ensures
        s@ == border('┌', '┐'),
{
    border_line('┌', '┐')
}

/// The bottom border of the box.
pub fn bottom_border() -> (s: String)
    ensures
        s@ == border('└', '┘'),
{
    border_line('└', '┘')
}

/// A divider across the box.
pub fn divider() -> (s: String)
    ensures
        s@ == border('├', '┤'),
{
    border_line('├', '┤')
}

/// A framed line holding `text`, cut or padded to the inner width.
pub fn framed_line(text: &str) -> (s: String)
    ensures
        s@ == framed(text@),
{
    let chars = chars_of(text);
    let mut s = String::new();
    push_char(&mut s, '│');
    push_char(&mut s, ' ');
    push_char(&mut s, ' ');
    let ghost start = s@;
    let n = if chars.len() > INNER { INNER } else { chars.len() };
    let mut i: usize = 0;
    while i < n
        invariant
            n <= chars@.len(),
            n == (if chars@.len() > INNER { INNER as int } else { chars@.len() as int }),
            i <= n,
            s@ == start + chars@.take(i as int),
        decreases n - i,
    {
        push_char(&mut s, chars[i]);
        i = i + 1;
        assert(s@ =~= start + chars@.take(i as int));
    }
    push_repeated(&mut s, ' ', INNER - n);
    push_char(&mut s, ' ');
    push_char(&mut s, ' ');
    push_char(&mut s, '│');
    assert(first_chars(text@, INNER as nat) =~= chars@.take(n as int));
    assert(s@ =~= framed(text@));
    s
}

/// An empty framed line.
pub fn blank() -> (s: String)
    ensures
        s@ == framed(Seq::<char>::empty()),
{
    proof {
        reveal_strlit("");
    }
    framed_line("")
}

/// Every border is as wide as the box, and every framed line has one and
/// the same width whatever its text: the inner width plus the two bars and
/// four spaces around it (59, two more than the borders).
pub proof fn law_screen_line_widths(text: Seq<char>, left: char, right: char)
    ensures
        framed(text).len() == INNER + 6,
        border(left, right).len() == WIDTH,
{
}

/// The kind of adapter an interface name (already in lowercase) stands
/// for, as shown beside it: `(Ethernet)`, `(WiFi)`, `(VPN)`, or nothing.
pub open spec fn adapter_kind_of_lower(n: Seq<char>) -> Seq<char> {
    if starts_with(n, "eth"@) || starts_with(n, "en"@) {
        "(Ethernet)"@
    } else if starts_with(n, "wlan"@) || starts_with(n, "wi"@) {
        "(WiFi)"@
    } else if contains(n, "vpn"@) || contains(n, "tun"@) {
        "(VPN)"@
    } else {
        ""@
    }
}

/// The kind of adapter an interface name that is already in lowercase
/// stands for.
pub fn describe_lowercase(n: &str) -> (r: &'static str)
    ensures
        r@ == adapter_kind_of_lower(n@),
{
    let c = chars_of(n);
    if starts_with_chars(&c, &chars_of("eth")) || starts_with_chars(&c, &chars_of("en")) {
        "(Ethernet)"
    } else if starts_with_chars(&c, &chars_of("wlan")) || starts_with_chars(&c, &chars_of("wi")) {
        "(WiFi)"
    } else if contains_chars(&c, &chars_of("vpn")) || contains_chars(&c, &chars_of("tun")) {
        "(VPN)"
    } else {
        ""
    }
}

/// The kind of adapter an interface name stands for, judged on its
/// lowercase form.
pub fn describe_adapter(name: &str) -> (r: &'static str)
    ensures
        r@ == adapter_kind_of_lower(lowercase(name@)),
{
    let lower = to_lowercase(name);
    describe_lowercase(lower.as_str())
}

/// The row of the interface table for `iface` whose name lowercases to
/// `lower`: two spaces, the name padded to 8, two spaces, the address padded
/// to 16, two spaces, `/<prefix>` and `  bcast <broadcast>` where known,
/// two spaces, and the adapter kind.
pub open spec fn interface_row_text(iface: LocalInterface, lower: Seq<char>) -> Seq<char> {
    "  "@ + padded_right(iface.name@, 8) + "  "@ + padded_right(ipv4_text(iface.ip), 16) + "  "@
        + match iface.prefix_len {
        Some(p) => "/"@ + decimal(p as nat),
        None => Seq::<char>::empty(),
    } + match iface.broadcast {
        Some(b) => "  bcast "@ + ipv4_text(b),
        None => Seq::<char>::empty(),
    } + "  "@ + adapter_kind_of_lower(lower)
}

/// Appends `text` and then spaces up to `width` characters.
fn push_padded(s: &mut String, text: &String, width: usize)
    ensures
        final(s)@ == old(s)@ + padded_right(text@, width as nat),
{
    let ghost s0 = s@;
    s.append(text.as_str());
    let n = text.as_str().unicode_len();
    if n < width {
        push_repeated(s, ' ', width - n);
    }
    assert(s@ =~= s0 + padded_right(text@, width as nat));
}

/// The row of the interface table for `iface`.
pub fn interface_row(iface: &LocalInterface) -> (s: String)
    ensures
        s@ == interface_row_text(*iface, lowercase(iface.name@)),
{
    let mut s = String::from_str("  ");
    push_padded(&mut s, &iface.name, 8);
    s.append("  ");
    let mut ip = String::new();
    push_ipv4(&mut ip, iface.ip);
    push_padded(&mut s, &ip, 16);
    s.append("  ");
    let ghost before_prefix = s@;
    match iface.prefix_len {
        Some(p) => {
            s.append("/");
            push_decimal(&mut s, p);
        },
        None => {},
    }
    let ghost before_bcast = s@;
    match iface.broadcast {
        Some(b) => {
            s.append("  bcast ");
            push_ipv4(&mut s, b);
        },
        None => {},
    }
    s.append("  ");
    s.append(describe_adapter(iface.name.as_str()));
    assert(s@ =~= interface_row_text(*iface, lowercase(iface.name@)));
    s
}

/// The broadcast address used to reach the console at `wing_ip`: that of
/// the first interface whose broadcast address shares the console's first
/// two octets, or 255.255.255.255 when none does.
pub open spec fn subnet_broadcast(ifaces: Seq<LocalInterface>, wing_ip: [u8; 4]) -> [u8; 4]
    decreases ifaces.len(),
{
    if ifaces.len() == 0 {
        [255u8, 255u8, 255u8, 255u8]
    } else {
        match ifaces[0].broadcast {
            Some(b) => if b[0] == wing_ip[0] && b[1] == wing_ip[1] {
                b
            } else {
                subnet_broadcast(ifaces.drop_first(), wing_ip)
            },
            None => subnet_broadcast(ifaces.drop_first(), wing_ip),
        }
    }
}

/// The broadcast address used to reach the console at `wing_ip`.
pub fn select_broadcast(ifaces: &Vec<LocalInterface>, wing_ip: [u8; 4]) -> (b: [u8; 4])
    ensures
        b == subnet_broadcast(ifaces@, wing_ip),
{
    let mut i: usize = 0;
    assert(ifaces@.skip(0) =~= ifaces@);
    while i < ifaces.len()
        invariant
            i <= ifaces@.len(),
            subnet_broadcast(ifaces@, wing_ip) == subnet_broadcast(ifaces@.skip(i as int), wing_ip),
        decreases ifaces@.len() - i,
    {
        assert(ifaces@.skip(i as int)[0] == ifaces@[i as int]);
        assert(ifaces@.skip(i as int).drop_first() =~= ifaces@.skip(i + 1));
        match ifaces[i].broadcast {
            Some(b) => {
                if b[0] == wing_ip[0] && b[1] == wing_ip[1] {
                    return b;
                }
            },
            None => {},
        }
        i = i + 1;
    }
    assert(ifaces@.skip(i as int).len() == 0);
    [255u8, 255u8, 255u8, 255u8]
}

/// A framed line shows the start of its text: a text longer than the inner
/// width is cut to its first 53 characters, a shorter one is followed by
/// spaces up to 53, always between `│  ` and `  │`.
pub proof fn law_framed_line_keeps_text_start(text: Seq<char>)
    ensures
        text.len() > 53 ==> framed(text) == seq!['│', ' ', ' '] + text.take(53) + seq![
            ' ',
            ' ',
            '│',
        ],
        text.len() <= 53 ==> framed(text) == seq!['│', ' ', ' '] + text + Seq::new(
            (53 - text.len()) as nat,
            |i: int| ' ',
        ) + seq![' ', ' ', '│'],
        forall|i: int| 0 <= i < text.len() && i < 53 ==> #[trigger] framed(text)[i + 3] == text[i],
{
    let pre = seq!['│', ' ', ' '];
    let post = seq![' ', ' ', '│'];
    if text.len() > 53 {
        assert(framed(text) =~= pre + text.take(53) + post);
    } else {
        assert(framed(text) =~= pre + text + Seq::new((53 - text.len()) as nat, |i: int| ' ')
            + post);
    }
    assert forall|i: int| 0 <= i < text.len() && i < 53 implies #[trigger] framed(text)[i + 3]
        == text[i] by {
        if text.len() > 53 {
            assert((pre + text.take(53) + post)[i + 3] == text.take(53)[i]);
        } else {
            assert((pre + text + Seq::new((53 - text.len()) as nat, |j: int| ' ') + post)[i + 3]
                == text[i]);
        }
    }
}

/// The kind shown beside an interface agrees with the order in which it is
/// listed: Ethernet exactly for rank 0, Wi-Fi exactly for rank 1, VPN
/// exactly for rank 3, and nothing for the other ranks.
pub proof fn law_adapter_kind_agrees_with_priority(n: Seq<char>)
    ensures
        (crate::network::priority_of_lower(n) == 0) <==> adapter_kind_of_lower(n) == "(Ethernet)"@,
        (crate::network::priority_of_lower(n) == 1) <==> adapter_kind_of_lower(n) == "(WiFi)"@,
        (crate::network::priority_of_lower(n) == 3) <==> adapter_kind_of_lower(n) == "(VPN)"@,
        (crate::network::priority_of_lower(n) == 2 || crate::network::priority_of_lower(n) == 4)
            <==> adapter_kind_of_lower(n) == ""@,
{
    reveal_strlit("(Ethernet)");
    reveal_strlit("(WiFi)");
    reveal_strlit("(VPN)");
    reveal_strlit("");
    assert("(Ethernet)"@.len() == 10);
    assert("(WiFi)"@.len() == 6);
    assert("(VPN)"@.len() == 5);
    assert(""@.len() == 0);
}

/// Lowercase names starting with `wi` or `wlan` are Wi-Fi (rank 1), names
/// starting with `en` or `eth` are Ethernet (rank 0).
pub proof fn law_adapter_kind_by_prefix(n: Seq<char>)
    ensures
        n.len() >= 2 && n[0] == 'w' && n[1] == 'i' ==> adapter_kind_of_lower(n) == "(WiFi)"@
            && crate::network::priority_of_lower(n) == 1,
        n.len() >= 4 && n[0] == 'w' && n[1] == 'l' && n[2] == 'a' && n[3] == 'n'
            ==> adapter_kind_of_lower(n) == "(WiFi)"@ && crate::network::priority_of_lower(n) == 1,
        n.len() >= 2 && n[0] == 'e' && n[1] == 'n' ==> adapter_kind_of_lower(n) == "(Ethernet)"@
            && crate::network::priority_of_lower(n) == 0,
        n.len() >= 3 && n[0] == 'e' && n[1] == 't' && n[2] == 'h' ==> adapter_kind_of_lower(n)
            == "(Ethernet)"@ && crate::network::priority_of_lower(n) == 0,
{
    reveal_strlit("wi");
    reveal_strlit("wlan");
    reveal_strlit("en");
    reveal_strlit("eth");
    if n.len() >= 2 {
        assert(n.subrange(0, 2) =~= seq![n[0], n[1]]);
    }
    if n.len() >= 3 {
        assert(n.subrange(0, 3) =~= seq![n[0], n[1], n[2]]);
    }
    if n.len() >= 4 {
        assert(n.subrange(0, 4) =~= seq![n[0], n[1], n[2], n[3]]);
    }
    if n.len() >= 2 && n[0] == 'w' && n[1] == 'i' {
        assert(n.subrange(0, 2) =~= "wi"@);
    }
    if n.len() >= 4 && n[0] == 'w' && n[1] == 'l' && n[2] == 'a' && n[3] == 'n' {
        assert(n.subrange(0, 4) =~= "wlan"@);
    }
    if n.len() >= 2 && n[0] == 'e' && n[1] == 'n' {
        assert(n.subrange(0, 2) =~= "en"@);
    }
    if n.len() >= 3 && n[0] == 'e' && n[1] == 't' && n[2] == 'h' {
        assert(n.subrange(0, 3) =~= "eth"@);
    }
}

} // verus!
