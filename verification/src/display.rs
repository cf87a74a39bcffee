//! What the console shows: texts and choices that follow from a few values.

use vstd::prelude::*;

use crate::engine::CodecMode;
use crate::engine::Transport;
use crate::millis;
use crate::millis::Millis;
use crate::text;
use crate::text::chars_of;
use crate::text::eq_ignore_case;
use crate::text::push_decimal;
use crate::text::same_text;

verus! {

/// The depth counts as raised when it exceeds the base by more than this many
/// ticks: 0.05 ms.
pub const DEPTH_RAISE_TICKS: i64 = 300;

/// The most characters of the status line.
pub const STATUS_LINE_MAX_CHARS: usize = 56;

/// A text cut to at most `max` characters, the last an ellipsis where it is cut
/// and there is room for one.
pub open spec fn truncated(s: Seq<char>, max: nat) -> Seq<char> {
    if s.len() <= max {
        s
    } else if max == 0 {
        Seq::empty()
    } else {
        s.take(max - 1) + "…"@
    }
}

/// Cuts a text to at most `max` characters, the last an ellipsis where it is cut.
pub fn truncate_with_ellipsis(s: &str, max: usize) -> (r: String)
    ensures
        r@ == truncated(s@, max as nat),
{
    if s.unicode_len() <= max {
        return s.to_owned();
    }
    let mut r = String::new();
    if max > 0 {
        r.append(s.substring_char(0, max - 1));
        r.append("…");
    }
    assert(r@ =~= truncated(s@, max as nat));
    r
}

/// A cut text fits and ends in the ellipsis, and a text that fits is not touched.
/// Where there is no room for the ellipsis, nothing is left.
pub proof fn truncation_fits(s: Seq<char>, max: nat)
    ensures
        truncated(s, max).len() <= max,
        s.len() <= max ==> truncated(s, max) == s,
        s.len() > max ==> truncated(s, max).len() == max,
        s.len() > max > 0 ==> truncated(s, max).last() == '…',
{
    reveal_strlit("…");
}

/// Whether the live depth lies well above the base.
pub open spec fn is_raised(effective: Millis, base: Millis) -> bool {
    effective.ticks > base.ticks + DEPTH_RAISE_TICKS
}

/// Whether the live depth lies well above the base.
pub fn depth_raised(effective: Millis, base: Millis) -> (r: bool)
    ensures
        r == is_raised(effective, base),
{
    effective.ticks as i128 > base.ticks as i128 + DEPTH_RAISE_TICKS as i128
}

/// The depth to show and whether to mark it as raised: the live depth while the
/// engine runs, else the base.
pub fn console_depth(effective: Millis, base: Millis, running: bool) -> (r: (Millis, bool))
    ensures
        r == (if running {
            (effective, is_raised(effective, base))
        } else {
            (base, false)
        }),
{
    if running {
        (effective, depth_raised(effective, base))
    } else {
        (base, false)
    }
}

/// The note about a raised depth.
pub open spec fn depth_hint_text(effective: Millis) -> Seq<char> {
    "effective "@ + effective.text() + " ms · raised by loss adaptation"@
}

/// The note about a raised depth, while the engine runs and the depth is raised.
pub fn depth_hint(effective: Millis, base: Millis, running: bool) -> (hint: Option<String>)
    ensures
        match hint {
            Some(h) => running && is_raised(effective, base) && h@ == depth_hint_text(effective),
            None => !(running && is_raised(effective, base)),
        },
{
    if running && depth_raised(effective, base) {
        let mut h = String::new();
        h.append("effective ");
        effective.push_tenths(&mut h);
        h.append(" ms · raised by loss adaptation");
        assert(h@ =~= depth_hint_text(effective));
        Some(h)
    } else {
        None
    }
}

/// A duration as `<ms>.<tenth> ms`.
pub fn millis_text(m: Millis) -> (s: String)
    ensures
        s@ == m.text() + " ms"@,
{
    let mut s = String::new();
    m.push_tenths(&mut s);
    s.append(" ms");
    assert(s@ =~= m.text() + " ms"@);
    s
}

/// The name of a transport in upper case.
pub open spec fn transport_label(t: Transport) -> Seq<char> {
    match t {
        Transport::Udp => "UDP"@,
        Transport::Tcp => "TCP"@,
    }
}

/// The name of a codec mode in upper case.
pub open spec fn codec_label(m: CodecMode) -> Seq<char> {
    match m {
        CodecMode::Auto => "AUTO"@,
        CodecMode::Pcm => "PCM"@,
        CodecMode::Opus => "OPUS"@,
    }
}

/// The status line before it is cut.
pub open spec fn status_text(t: Transport, bind: Seq<char>, port: u16, m: CodecMode) -> Seq<char> {
    transport_label(t) + " · "@ + bind + ":"@ + text::decimal(port as nat) + " · "@ + codec_label(m)
}

/// The status line: transport, address, port and codec, cut to one line.
pub fn status_line(t: Transport, bind: &str, port: u16, m: CodecMode) -> (s: String)
    ensures
        s@ == truncated(status_text(t, bind@, port, m), STATUS_LINE_MAX_CHARS as nat),
{
    let mut s = String::new();
    match t {
        Transport::Udp => s.append("UDP"),
        Transport::Tcp => s.append("TCP"),
    }
    s.append(" · ");
    s.append(bind);
    s.append(":");
    push_decimal(&mut s, port as u64);
    s.append(" · ");
    match m {
        CodecMode::Auto => s.append("AUTO"),
        CodecMode::Pcm => s.append("PCM"),
        CodecMode::Opus => s.append("OPUS"),
    }
    assert(s@ =~= status_text(t, bind@, port, m));
    truncate_with_ellipsis(s.as_str(), STATUS_LINE_MAX_CHARS)
}

/// Whether a variable with that value switches something on: any value but
/// nothing, `0` and `false`.
pub open spec fn switches_on(value: Option<Seq<char>>) -> bool {
    match value {
        None => false,
        Some(v) => v.len() > 0 && v != "0"@ && !text::same_ignoring_case(v, "false"@),
    }
}

/// Whether a variable with that value switches something on.
pub fn env_flag(value: Option<&str>) -> (r: bool)
    ensures
        r == switches_on(
            match value {
                Some(v) => Some(v@),
                None => None,
            },
        ),
{
    match value {
        None => false,
        Some(v) => v.unicode_len() > 0 && !same_text(v, "0") && !eq_ignore_case(v, "false"),
    }
}

/// Whether the window starts hidden: only if asked to, and if a tray can bring it
/// back.
pub fn starts_hidden(asked: bool, configured: bool, has_tray: bool) -> (r: bool)
    ensures
        r == ((asked || configured) && has_tray),
{
    (asked || configured) && has_tray
}

/// Whether `a` comes before `b` in the order of their characters.
pub open spec fn comes_before(a: Seq<char>, b: Seq<char>) -> bool
    decreases a.len(),
{
    if b.len() == 0 {
        false
    } else if a.len() == 0 {
        true
    } else if a[0] != b[0] {
        a[0] < b[0]
    } else {
        comes_before(a.skip(1), b.skip(1))
    }
}

/// Texts in order, none twice.
pub open spec fn in_order(s: Seq<Seq<char>>) -> bool {
    forall|i: int, j: int|
        #![trigger s[i], s[j]]
        0 <= i < j < s.len() ==> comes_before(s[i], s[j])
}

/// Texts with `extra` behind them, unless it is among them.
pub open spec fn with_extra(s: Seq<Seq<char>>, extra: Seq<char>) -> Seq<Seq<char>> {
    if s.contains(extra) {
        s
    } else {
        s.push(extra)
    }
}

/// The addresses to choose from: the found ones in order and none twice, then the
/// one for all interfaces and the current one, unless they are among them.
pub open spec fn is_choice(r: Seq<Seq<char>>, found: Seq<Seq<char>>, current: Seq<char>) -> bool {
    exists|s: Seq<Seq<char>>|
        {
            &&& #[trigger] in_order(s)
            &&& s.to_set() == found.to_set()
            &&& r == with_extra(with_extra(s, "0.0.0.0"@), current)
        }
}

/// Any two texts are in an order.
pub proof fn order_is_total(a: Seq<char>, b: Seq<char>)
    ensures
        a == b || comes_before(a, b) || comes_before(b, a),
        !(comes_before(a, b) && comes_before(b, a)),
        comes_before(a, b) ==> a != b,
    decreases a.len(),
{
    if a.len() == 0 {
        if b.len() == 0 {
            assert(a =~= b);
        }
    } else if b.len() > 0 && a[0] == b[0] {
        order_is_total(a.skip(1), b.skip(1));
        if a.skip(1) == b.skip(1) {
            assert(a =~= seq![a[0]] + a.skip(1));
            assert(b =~= seq![b[0]] + b.skip(1));
        }
    }
}

/// What comes before what comes before a text comes before it.
pub proof fn order_is_transitive(a: Seq<char>, b: Seq<char>, c: Seq<char>)
    requires
        comes_before(a, b),
        comes_before(b, c),
    ensures
        comes_before(a, c),
    decreases a.len(),
{
    if a.len() > 0 && a[0] == b[0] && b[0] == c[0] {
        order_is_transitive(a.skip(1), b.skip(1), c.skip(1));
    }
}

/// Whether `a` comes before `b`.
fn is_before(a: &str, b: &str) -> (r: bool)
    ensures
        r == comes_before(a@, b@),
{
    let va = chars_of(a);
    let vb = chars_of(b);
    let mut i: usize = 0;
    proof {
        assert(va@.skip(0) =~= va@);
        assert(vb@.skip(0) =~= vb@);
    }
    while i < va.len() && i < vb.len() && va[i] == vb[i]
        invariant
            i <= va@.len(),
            i <= vb@.len(),
            va@ == a@,
            vb@ == b@,
            comes_before(a@, b@) == comes_before(va@.skip(i as int), vb@.skip(i as int)),
        decreases va@.len() - i,
    {
        proof {
            assert(va@.skip(i as int).skip(1) =~= va@.skip(i + 1));
            assert(vb@.skip(i as int).skip(1) =~= vb@.skip(i + 1));
        }
        i = i + 1;
    }
    if i >= vb.len() {
        false
    } else if i >= va.len() {
        true
    } else {
        va[i] < vb[i]
    }
}

/// Puts a text in its place in an ordered list, unless it is there.
fn insert_in_order(v: &mut Vec<String>, s: String)
    requires
        in_order(text::texts(old(v)@)),
    ensures
        in_order(text::texts(final(v)@)),
        text::texts(final(v)@).to_set() == text::texts(old(v)@).to_set().insert(s@),
{
    let ghost before = text::texts(v@);
    let mut i: usize = 0;
    while i < v.len() && is_before(v[i].as_str(), s.as_str())
        invariant
            i <= v@.len(),
            before == text::texts(v@),
            forall|j: int| 0 <= j < i ==> comes_before(#[trigger] before[j], s@),
        decreases v@.len() - i,
    {
        i = i + 1;
    }
    if i < v.len() && same_text(v[i].as_str(), s.as_str()) {
        assert(before[i as int] == s@);
        assert(before.to_set().insert(s@) =~= before.to_set());
        return;
    }
    let ghost text = s@;
    v.insert(i, s);
    proof {
        let after = text::texts(v@);
        assert(after =~= before.insert(i as int, text));
        lemma_insertion_keeps_order(before, i as int, text);
        assert(after.to_set() =~= before.to_set().insert(text)) by {
            assert forall|x: Seq<char>| after.to_set().contains(x) implies before.to_set().insert(
                text,
            ).contains(x) by {
                let k = choose|k: int| 0 <= k < after.len() && after[k] == x;
                if k < i {
                    assert(before[k] == x);
                } else if k > i {
                    assert(before[k - 1] == x);
                }
            }
            assert forall|x: Seq<char>| before.to_set().insert(text).contains(x) implies #[trigger] after.to_set().contains(
                x,
            ) by {
                if x == text {
                    assert(after[i as int] == x);
                } else {
                    let k = choose|k: int| 0 <= k < before.len() && before[k] == x;
                    if k < i {
                        assert(after[k] == x);
                    } else {
                        assert(after[k + 1] == x);
                    }
                }
            }
        }
    }
}

proof fn lemma_insertion_keeps_order(s: Seq<Seq<char>>, i: int, x: Seq<char>)
    requires
        in_order(s),
        0 <= i <= s.len(),
        forall|j: int| 0 <= j < i ==> comes_before(#[trigger] s[j], x),
        i < s.len() ==> !comes_before(s[i], x) && s[i] != x,
    ensures
        in_order(s.insert(i, x)),
{
    let t = s.insert(i, x);
    if i < s.len() {
        order_is_total(s[i], x);
    }
    assert forall|a: int, b: int| #![trigger t[a], t[b]] 0 <= a < b < t.len() implies comes_before(
        t[a],
        t[b],
    ) by {
        if b < i {
            assert(t[a] == s[a] && t[b] == s[b]);
        } else if b == i {
            assert(t[a] == s[a]);
        } else if a < i {
            assert(t[a] == s[a] && t[b] == s[b - 1]);
        } else if a == i {
            assert(t[b] == s[b - 1]);
            if b - 1 > i {
                order_is_transitive(x, s[i], s[b - 1]);
            }
        } else {
            assert(t[a] == s[a - 1] && t[b] == s[b - 1]);
        }
    }
}

/// Whether a text is among others.
fn is_among(v: &Vec<String>, s: &str) -> (r: bool)
    ensures
        r == text::texts(v@).contains(s@),
{
    let mut i: usize = 0;
    while i < v.len()
        invariant
            i <= v@.len(),
            forall|j: int| 0 <= j < i ==> #[trigger] text::texts(v@)[j] != s@,
        decreases v@.len() - i,
    {
        if same_text(v[i].as_str(), s) {
            assert(text::texts(v@)[i as int] == s@);
            return true;
        }
        i = i + 1;
    }
    false
}

/// Adds a text behind others, unless it is among them.
fn push_extra(v: &mut Vec<String>, s: &str)
    ensures
        text::texts(final(v)@) == with_extra(text::texts(old(v)@), s@),
{
    if !is_among(v, s) {
        v.push(s.to_owned());
        assert(text::texts(v@) =~= text::texts(old(v)@).push(s@));
    }
}

/// The addresses to choose from, made of those found on this machine and the
/// current one.
pub fn bind_options(found: &Vec<String>, current: &str) -> (r: Vec<String>)
    ensures
        is_choice(text::texts(r@), text::texts(found@), current@),
{
    let mut v: Vec<String> = Vec::new();
    let mut i: usize = 0;
    proof {
        assert(text::texts(v@) =~= Seq::<Seq<char>>::empty());
        assert(text::texts(found@).take(0) =~= Seq::<Seq<char>>::empty());
    }
    while i < found.len()
        invariant
            i <= found@.len(),
            in_order(text::texts(v@)),
            text::texts(v@).to_set() == text::texts(found@).take(i as int).to_set(),
        decreases found@.len() - i,
    {
        let ghost all = text::texts(found@);
        insert_in_order(&mut v, found[i].clone());
        proof {
            assert(all.take(i + 1) =~= all.take(i as int).push(all[i as int]));
            lemma_set_of_push(all.take(i as int), all[i as int]);
        }
        i = i + 1;
    }
    assert(text::texts(found@).take(i as int) =~= text::texts(found@));
    let ghost sorted = text::texts(v@);
    push_extra(&mut v, "0.0.0.0");
    push_extra(&mut v, current);
    assert(in_order(sorted));
    v
}

proof fn lemma_set_of_push(s: Seq<Seq<char>>, x: Seq<char>)
    ensures
        s.push(x).to_set() == s.to_set().insert(x),
{
    let t = s.push(x);
    assert forall|y: Seq<char>| t.to_set().contains(y) == #[trigger] s.to_set().insert(x).contains(
        y,
    ) by {
        if s.to_set().insert(x).contains(y) {
            if y == x {
                assert(t[s.len() as int] == y);
            } else {
                let k = choose|k: int| 0 <= k < s.len() && s[k] == y;
                assert(t[k] == y);
            }
        }
        if t.to_set().contains(y) {
            let k = choose|k: int| 0 <= k < t.len() && t[k] == y;
            if k < s.len() {
                assert(s[k] == y);
            }
        }
    }
    assert(t.to_set() =~= s.to_set().insert(x));
}

/// Whatever was found, the current address and the one for all interfaces can be
/// chosen.
pub proof fn current_address_can_be_chosen(
    r: Seq<Seq<char>>,
    found: Seq<Seq<char>>,
    current: Seq<char>,
)
    requires
        is_choice(r, found, current),
    ensures
        r.contains(current),
        r.contains("0.0.0.0"@),
        forall|x: Seq<char>| found.contains(x) ==> #[trigger] r.contains(x),
{
    let s = choose|s: Seq<Seq<char>>|
        {
            &&& #[trigger] in_order(s)
            &&& s.to_set() == found.to_set()
            &&& r == with_extra(with_extra(s, "0.0.0.0"@), current)
        };
    let one = with_extra(s, "0.0.0.0"@);
    lemma_extra_is_there(s, "0.0.0.0"@);
    lemma_extra_is_there(one, current);
    assert forall|x: Seq<char>| found.contains(x) implies #[trigger] r.contains(x) by {
        assert(found.to_set().contains(x));
        assert(s.to_set().contains(x));
    }
}

proof fn lemma_extra_is_there(s: Seq<Seq<char>>, extra: Seq<char>)
    ensures
        with_extra(s, extra).contains(extra),
        forall|x: Seq<char>| s.contains(x) ==> #[trigger] with_extra(s, extra).contains(x),
{
    let t = with_extra(s, extra);
    if !s.contains(extra) {
        assert(t[s.len() as int] == extra);
    }
    assert forall|x: Seq<char>| s.contains(x) implies #[trigger] t.contains(x) by {
        let k = choose|k: int| 0 <= k < s.len() && s[k] == x;
        assert(t[k] == x);
    }
}

/// There is one list to choose from.
pub proof fn choice_is_unique(
    a: Seq<Seq<char>>,
    b: Seq<Seq<char>>,
    found: Seq<Seq<char>>,
    current: Seq<char>,
)
    requires
        is_choice(a, found, current),
        is_choice(b, found, current),
    ensures
        a == b,
{
    let s = choose|s: Seq<Seq<char>>|
        {
            &&& #[trigger] in_order(s)
            &&& s.to_set() == found.to_set()
            &&& a == with_extra(with_extra(s, "0.0.0.0"@), current)
        };
    let t = choose|t: Seq<Seq<char>>|
        {
            &&& #[trigger] in_order(t)
            &&& t.to_set() == found.to_set()
            &&& b == with_extra(with_extra(t, "0.0.0.0"@), current)
        };
    assert forall|x: Seq<char>| s.contains(x) implies t.contains(x) by {
        assert(s.to_set().contains(x));
        assert(t.to_set().contains(x));
    }
    assert forall|x: Seq<char>| t.contains(x) implies s.contains(x) by {
        assert(t.to_set().contains(x));
        assert(s.to_set().contains(x));
    }
    lemma_order_is_unique(s, t);
}

/// Texts in order are told by what is among them.
proof fn lemma_order_is_unique(s: Seq<Seq<char>>, t: Seq<Seq<char>>)
    requires
        in_order(s),
        in_order(t),
        forall|x: Seq<char>| s.contains(x) <==> t.contains(x),
    ensures
        s == t,
    decreases s.len(),
{
    if s.len() == 0 {
        if t.len() > 0 {
            assert(t.contains(t[0]));
        }
        assert(s =~= t);
    } else {
        assert(s.contains(s.last()));
        assert(t.len() > 0);
        assert(t.contains(t.last()));
        let i = choose|i: int| 0 <= i < s.len() && s[i] == t.last();
        let j = choose|j: int| 0 <= j < t.len() && t[j] == s.last();
        order_is_total(s.last(), t.last());
        assert(s.last() == t.last());
        let (u, v) = (s.drop_last(), t.drop_last());
        assert forall|x: Seq<char>| u.contains(x) <==> v.contains(x) by {
            order_is_total(s.last(), s.last());
            if u.contains(x) {
                let k = choose|k: int| 0 <= k < u.len() && u[k] == x;
                assert(s[k] == x && s.contains(x));
                let m = choose|m: int| 0 <= m < t.len() && t[m] == x;
                assert(v[m] == x);
            }
            if v.contains(x) {
                let k = choose|k: int| 0 <= k < v.len() && v[k] == x;
                assert(t[k] == x && t.contains(x));
                let m = choose|m: int| 0 <= m < s.len() && s[m] == x;
                assert(u[m] == x);
            }
        }
        lemma_order_is_unique(u, v);
        assert(s =~= u.push(s.last()));
        assert(t =~= v.push(t.last()));
    }
}

/// The order is that of the first place where two texts differ; a text that another
/// one starts with comes before it.
pub proof fn order_is_that_of_the_first_difference(
    same: Seq<char>,
    a: char,
    b: char,
    x: Seq<char>,
    y: Seq<char>,
)
    ensures
        a != b ==> (comes_before(same + seq![a] + x, same + seq![b] + y) <==> a < b),
        comes_before(same, same + seq![b] + y),
        !comes_before(same + seq![b] + y, same),
    decreases same.len(),
{
    let s = same + seq![a] + x;
    let t = same + seq![b] + y;
    if same.len() > 0 {
        let rest = same.skip(1);
        order_is_that_of_the_first_difference(rest, a, b, x, y);
        assert(s.skip(1) =~= rest + seq![a] + x);
        assert(t.skip(1) =~= rest + seq![b] + y);
        assert(s[0] == same[0] && t[0] == same[0]);
    } else {
        assert(s[0] == a && t[0] == b);
    }
}

/// The choice of addresses holds none twice and nothing but what was found, the one
/// for all interfaces and the current one.
pub proof fn choice_holds_nothing_else(
    r: Seq<Seq<char>>,
    found: Seq<Seq<char>>,
    current: Seq<char>,
    i: int,
    j: int,
)
    requires
        is_choice(r, found, current),
        0 <= i < r.len(),
        0 <= j < r.len(),
    ensures
        found.contains(r[i]) || r[i] == "0.0.0.0"@ || r[i] == current,
        i != j ==> r[i] != r[j],
{
    let s = choose|s: Seq<Seq<char>>|
        {
            &&& #[trigger] in_order(s)
            &&& s.to_set() == found.to_set()
            &&& r == with_extra(with_extra(s, "0.0.0.0"@), current)
        };
    let one = with_extra(s, "0.0.0.0"@);
    if i < s.len() {
        assert(s.to_set().contains(s[i]));
        assert(found.to_set().contains(s[i]));
    }
    assert forall|a: int, b: int| 0 <= a < b < r.len() implies r[a] != r[b] by {
        if b < s.len() {
            order_is_total(s[a], s[b]);
            assert(comes_before(s[a], s[b]));
        } else if b < one.len() {
            assert(s.contains(s[a]));
        } else {
            assert(one.contains(one[a]));
        }
    }
}

/// A variable switches something on unless it is not set, empty, `0`, or `false` in
/// any case of its letters.
pub proof fn variables_switch_on(value: Seq<char>)
    ensures
        !switches_on(None),
        !switches_on(Some(Seq::empty())),
        !switches_on(Some("0"@)),
        text::same_ignoring_case(value, "false"@) ==> !switches_on(Some(value)),
        value.len() > 0 && value != "0"@ && !text::same_ignoring_case(value, "false"@)
            ==> switches_on(Some(value)),
{
}

/// A window starts hidden only if that was asked for and the tray can bring it back.
pub proof fn hidden_windows_can_be_found(asked: bool, configured: bool, tray: bool, r: bool)
    requires
        call_ensures(starts_hidden, (asked, configured, tray), r),
    ensures
        r ==> tray,
        tray && (asked || configured) ==> r,
        !asked && !configured ==> !r,
{
}

/// The live depth is shown while the engine runs and the base otherwise; it is
/// marked if it lies more than 0.05 ms above the base, and the note says so then.
pub proof fn raised_depth_is_marked(
    effective: Millis,
    base: Millis,
    running: bool,
    r: (Millis, bool),
    hint: Option<String>,
)
    requires
        call_ensures(console_depth, (effective, base, running), r),
        call_ensures(depth_hint, (effective, base, running), hint),
    ensures
        running ==> r.0 == effective,
        !running ==> r.0 == base && !r.1,
        running ==> (r.1 <==> (effective.ticks - base.ticks) * 100 > 5 * 6000),
        hint is Some <==> r.1,
{
}

/// The labels are the names in upper case.
pub proof fn labels_are_the_names(t: Transport, m: CodecMode)
    ensures
        text::same_ignoring_case(transport_label(t), crate::engine::transport_name(t)),
        text::same_ignoring_case(codec_label(m), crate::engine::codec_name(m)),
{
    reveal_strlit("UDP");
    reveal_strlit("udp");
    reveal_strlit("TCP");
    reveal_strlit("tcp");
    reveal_strlit("AUTO");
    reveal_strlit("auto");
    reveal_strlit("PCM");
    reveal_strlit("pcm");
    reveal_strlit("OPUS");
    reveal_strlit("opus");
    assert(text::ascii_lower(transport_label(t)) =~= text::ascii_lower(
        crate::engine::transport_name(t),
    ));
    assert(text::ascii_lower(codec_label(m)) =~= text::ascii_lower(crate::engine::codec_name(m)));
}

/// The found addresses come in the order of their characters.
pub proof fn found_addresses_are_in_order(
    r: Seq<Seq<char>>,
    found: Seq<Seq<char>>,
    current: Seq<char>,
    i: int,
    j: int,
)
    requires
        is_choice(r, found, current),
        0 <= i < j < r.len(),
        found.contains(r[j]),
    ensures
        found.contains(r[i]),
        comes_before(r[i], r[j]),
{
    let s = choose|s: Seq<Seq<char>>|
        {
            &&& #[trigger] in_order(s)
            &&& s.to_set() == found.to_set()
            &&& r == with_extra(with_extra(s, "0.0.0.0"@), current)
        };
    let one = with_extra(s, "0.0.0.0"@);
    assert(found.to_set().contains(r[j]));
    assert(s.to_set().contains(r[j]));
    if j >= s.len() {
        assert(s.contains(r[j]));
        if j >= one.len() {
            lemma_extra_is_there(s, "0.0.0.0"@);
            assert(one.contains(r[j]));
        }
    }
    assert(s.to_set().contains(s[i]));
    assert(found.to_set().contains(s[i]));
}

/// A text that fits is shown whole; of another one its first characters, one fewer than
/// fit, and the ellipsis.
pub proof fn long_texts_are_cut(s: &str, max: usize, r: String)
    requires
        call_ensures(truncate_with_ellipsis, (s, max), r),
    ensures
        r@.len() <= max,
        s@.len() <= max ==> r@ == s@,
        s@.len() > max > 0 ==> r@.drop_last() == s@.take(max - 1) && r@.last() == '…',
        max == 0 ==> r@.len() == 0,
{
    reveal_strlit("…");
    if s@.len() > max && max > 0 {
        assert(r@.drop_last() =~= s@.take(max - 1));
    }
}

/// The status line tells transport, address, port and codec in this order, up to 56
/// characters.
pub proof fn status_lines_tell_where_it_listens(
    t: Transport,
    bind: &str,
    port: u16,
    m: CodecMode,
    line: String,
)
    requires
        call_ensures(status_line, (t, bind, port, m), line),
    ensures
        line@.len() <= 56,
        bind@.len() <= 30 ==> line@ == (if t is Udp {
            "UDP"@
        } else {
            "TCP"@
        }) + " · "@ + bind@ + ":"@ + text::decimal(port as nat) + " · "@ + (if m is Auto {
            "AUTO"@
        } else if m is Pcm {
            "PCM"@
        } else {
            "OPUS"@
        }),
{
    truncation_fits(status_text(t, bind@, port, m), 56);
    reveal_strlit("UDP");
    reveal_strlit("TCP");
    reveal_strlit(" · ");
    reveal_strlit(":");
    reveal_strlit("AUTO");
    reveal_strlit("PCM");
    reveal_strlit("OPUS");
    reveal_with_fuel(text::decimal, 6);
    let n = port as nat;
    assert(text::decimal(n).len() <= 5);
}

/// The flag of a variable is on for every value but none, nothing, `0` and `false`.
pub proof fn flags_are_on_unless_denied(value: Option<&str>, on: bool)
    requires
        call_ensures(env_flag, (value,), on),
    ensures
        value is None ==> !on,
        value matches Some(v) ==> (on <==> v@.len() > 0 && v@ != "0"@ && !text::same_ignoring_case(
            v@,
            "false"@,
        )),
{
}

/// A duration is shown in milliseconds, and the note about a raised depth tells it.
pub proof fn durations_are_shown_in_milliseconds(
    m: Millis,
    s: String,
    base: Millis,
    hint: Option<String>,
)
    requires
        call_ensures(millis_text, (m,), s),
        call_ensures(depth_hint, (m, base, true), hint),
    ensures
        s@ == m.text() + " ms"@,
        hint matches Some(h) ==> h@ == "effective "@ + m.text()
            + " ms · raised by loss adaptation"@,
        hint is Some <==> (m.ticks - base.ticks) * 100 > 5 * 6000,
{
}

/// The choice of addresses holds those that were found, all interfaces and the current
/// one, and nothing else.
pub proof fn addresses_to_choose(found: &Vec<String>, current: &str, r: Vec<String>, s: Seq<char>)
    requires
        call_ensures(bind_options, (found, current), r),
    ensures
        text::texts(r@).contains(s) <==> text::texts(found@).contains(s) || s == "0.0.0.0"@ || s
            == current@,
{
    let all = text::texts(r@);
    current_address_can_be_chosen(all, text::texts(found@), current@);
    if all.contains(s) {
        let i = choose|i: int| 0 <= i < all.len() && all[i] == s;
        choice_holds_nothing_else(all, text::texts(found@), current@, i, i);
    }
}

/// What was not found comes behind what was: first the one for all interfaces, then the
/// current address.
pub proof fn added_addresses_come_last(
    r: Seq<Seq<char>>,
    found: Seq<Seq<char>>,
    current: Seq<char>,
)
    requires
        is_choice(r, found, current),
        !found.contains("0.0.0.0"@),
        !found.contains(current),
    ensures
        r.len() >= 1,
        current == "0.0.0.0"@ ==> r.last() == current,
        current != "0.0.0.0"@ ==> r.len() >= 2 && r.last() == current && r[r.len() - 2]
            == "0.0.0.0"@,
{
    let s = choose|s: Seq<Seq<char>>|
        {
            &&& #[trigger] in_order(s)
            &&& s.to_set() == found.to_set()
            &&& r == with_extra(with_extra(s, "0.0.0.0"@), current)
        };
    let one = with_extra(s, "0.0.0.0"@);
    assert(!s.contains("0.0.0.0"@)) by {
        if s.contains("0.0.0.0"@) {
            assert(s.to_set().contains("0.0.0.0"@));
            assert(found.to_set().contains("0.0.0.0"@));
        }
    }
    assert(!s.contains(current)) by {
        if s.contains(current) {
            assert(s.to_set().contains(current));
            assert(found.to_set().contains(current));
        }
    }
    assert(one =~= s.push("0.0.0.0"@));
    if current != "0.0.0.0"@ {
        assert(!one.contains(current)) by {
            if one.contains(current) {
                let k = choose|k: int| 0 <= k < one.len() && one[k] == current;
                assert(k < s.len());
                assert(s[k] == current);
            }
        }
        assert(r =~= one.push(current));
    } else {
        assert(one[one.len() - 1] == current);
        assert(one.contains(current));
        assert(r == one);
    }
}

} // verus!
