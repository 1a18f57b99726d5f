use vstd::prelude::*;
use vstd::string::StrSliceExecFns;

use crate::codec::digit_char;
use crate::codec::esc_char;
use crate::codec::esc_seq;
use crate::codec::hex_char;
use crate::codec::hex_val;
use crate::codec::is_hex_lower;
use crate::codec::lit_complete;
use crate::codec::lit_deadline;
use crate::codec::lit_desc;
use crate::codec::lit_header;
use crate::codec::lit_null;
use crate::codec::lit_progress;
use crate::codec::lit_status;
use crate::codec::lit_todo;
use crate::codec::lit_underway;
use crate::codec::p_chars;
use crate::codec::p_date;
use crate::codec::p_deadline;
use crate::codec::p_doc;
use crate::codec::p_four_digits;
use crate::codec::p_item;
use crate::codec::p_items;
use crate::codec::p_lit;
use crate::codec::p_progress;
use crate::codec::p_rest;
use crate::codec::p_status;
use crate::codec::p_string;
use crate::codec::p_two_digits;
use crate::codec::ser_date;
use crate::codec::ser_doc;
use crate::codec::ser_four_digits;
use crate::codec::ser_item;
use crate::codec::ser_items;
use crate::codec::ser_progress;
use crate::codec::ser_rest;
use crate::codec::ser_status;
use crate::codec::ser_string;
use crate::codec::ser_two_digits;
use crate::item::Date;
use crate::item::Item;
use crate::item::PROGRESS_SCALE;
use crate::item::Progress;
use crate::item::Status;
use crate::list::List;

verus! {

/// The document on disk could not be read back as a task list.
#[derive(Clone, Copy, Debug, PartialEq, Eq, Structural)]
pub enum PersistenceError {
    Malformed,
}

// ---------- characters ----------

fn digit_to_char(d: u32) -> (c: char)
    requires
        d < 10,
    ensures
        c == digit_char(d as int),
{
    if d == 0 {
        '0'
    } else if d == 1 {
        '1'
    } else if d == 2 {
        '2'
    } else if d == 3 {
        '3'
    } else if d == 4 {
        '4'
    } else if d == 5 {
        '5'
    } else if d == 6 {
        '6'
    } else if d == 7 {
        '7'
    } else if d == 8 {
        '8'
    } else {
        '9'
    }
}

fn hex_to_char(d: u32) -> (c: char)
    requires
        d < 16,
    ensures
        c == hex_char(d as int),
{
    if d < 10 {
        digit_to_char(d)
    } else if d == 10 {
        'a'
    } else if d == 11 {
        'b'
    } else if d == 12 {
        'c'
    } else if d == 13 {
        'd'
    } else if d == 14 {
        'e'
    } else {
        'f'
    }
}

fn char_digit(c: char) -> (r: Option<u32>)
    ensures
        r matches Some(d) ==> 48 <= c as u32 <= 57 && d as int == c as u32 - 48 && d < 10,
        r is None ==> !(48 <= c as u32 <= 57),
{
    let cc = c as u32;
    if 48 <= cc && cc <= 57 {
        Some(cc - 48)
    } else {
        None
    }
}

fn char_hex(c: char) -> (r: Option<u32>)
    ensures
        r matches Some(d) ==> is_hex_lower(c) && d as int == hex_val(c) && d < 16,
        r is None ==> !is_hex_lower(c),
{
    let cc = c as u32;
    if 48 <= cc && cc <= 57 {
        Some(cc - 48)
    } else if 97 <= cc && cc <= 102 {
        Some(cc - 87)
    } else {
        None
    }
}

fn control_char(w: u32) -> (c: char)
    requires
        w < 32,
    ensures
        c as u32 == w,
{
    if w == 0 {
        '\u{00}'
    } else if w == 1 {
        '\u{01}'
    } else if w == 2 {
        '\u{02}'
    } else if w == 3 {
        '\u{03}'
    } else if w == 4 {
        '\u{04}'
    } else if w == 5 {
        '\u{05}'
    } else if w == 6 {
        '\u{06}'
    } else if w == 7 {
        '\u{07}'
    } else if w == 8 {
        '\u{08}'
    } else if w == 9 {
        '\u{09}'
    } else if w == 10 {
        '\u{0a}'
    } else if w == 11 {
        '\u{0b}'
    } else if w == 12 {
        '\u{0c}'
    } else if w == 13 {
        '\u{0d}'
    } else if w == 14 {
        '\u{0e}'
    } else if w == 15 {
        '\u{0f}'
    } else if w == 16 {
        '\u{10}'
    } else if w == 17 {
        '\u{11}'
    } else if w == 18 {
        '\u{12}'
    } else if w == 19 {
        '\u{13}'
    } else if w == 20 {
        '\u{14}'
    } else if w == 21 {
        '\u{15}'
    } else if w == 22 {
        '\u{16}'
    } else if w == 23 {
        '\u{17}'
    } else if w == 24 {
        '\u{18}'
    } else if w == 25 {
        '\u{19}'
    } else if w == 26 {
        '\u{1a}'
    } else if w == 27 {
        '\u{1b}'
    } else if w == 28 {
        '\u{1c}'
    } else if w == 29 {
        '\u{1d}'
    } else if w == 30 {
        '\u{1e}'
    } else {
        '\u{1f}'
    }
}

// ---------- strings and character vectors ----------

/// The characters of a string slice, in order, as a vector.
fn chars_vec(s: &str) -> (v: Vec<char>)
    ensures
        v@ == s@,
{
    let n = s.unicode_len();
    let mut v: Vec<char> = Vec::new();
    let mut i: usize = 0;
    while i < n
        invariant
            i <= n,
            n == s@.len(),
            v@ == s@.take(i as int),
        decreases n - i,
    {
        let c = s.get_char(i);
        v.push(c);
        proof {
            assert(v@ =~= s@.take(i + 1));
        }
        i = i + 1;
    }
    proof {
        assert(s@.take(n as int) =~= s@);
    }
    v
}

/// Relies on `String: FromIterator<char>`: collecting an iterator of
/// characters yields the string of exactly those characters in order.
#[verifier::external_body]
fn string_from_chars(v: &Vec<char>) -> (s: String)
    ensures
        s@ == v@,
{
    v.iter().collect()
}

// ---------- the serializer ----------

fn push_lit(out: &mut Vec<char>, lit: &Vec<char>)
    ensures
        final(out)@ == old(out)@ + lit@,
{
    let n = lit.len();
    let mut k: usize = 0;
    while k < n
        invariant
            k <= n,
            n == lit@.len(),
            out@ == old(out)@ + lit@.take(k as int),
        decreases n - k,
    {
        out.push(lit[k]);
        proof {
            assert(old(out)@ + lit@.take(k as int) + seq![lit@[k as int]] =~= old(out)@
                + lit@.take(k + 1));
        }
        k = k + 1;
    }
    proof {
        assert(lit@.take(n as int) =~= lit@);
    }
}

fn lit_header_vec() -> (v: Vec<char>)
    ensures
        v@ == lit_header(),
{
    let v = chars_vec("{\"items\":[");
    proof {
        reveal_strlit("{\"items\":[");
        assert(v@ =~= lit_header());
    }
    v
}

fn lit_status_vec() -> (v: Vec<char>)
    ensures
        v@ == lit_status(),
{
    let v = chars_vec("{\"status\":");
    proof {
        reveal_strlit("{\"status\":");
        assert(v@ =~= lit_status());
    }
    v
}

fn lit_desc_vec() -> (v: Vec<char>)
    ensures
        v@ == lit_desc(),
{
    let v = chars_vec(",\"desc\":");
    proof {
        reveal_strlit(",\"desc\":");
        assert(v@ =~= lit_desc());
    }
    v
}

fn lit_deadline_vec() -> (v: Vec<char>)
    ensures
        v@ == lit_deadline(),
{
    let v = chars_vec(",\"deadline\":");
    proof {
        reveal_strlit(",\"deadline\":");
        assert(v@ =~= lit_deadline());
    }
    v
}

fn lit_progress_vec() -> (v: Vec<char>)
    ensures
        v@ == lit_progress(),
{
    let v = chars_vec(",\"progress\":");
    proof {
        reveal_strlit(",\"progress\":");
        assert(v@ =~= lit_progress());
    }
    v
}

fn lit_null_vec() -> (v: Vec<char>)
    ensures
        v@ == lit_null(),
{
    let v = chars_vec("null");
    proof {
        reveal_strlit("null");
        assert(v@ =~= lit_null());
    }
    v
}

fn lit_todo_vec() -> (v: Vec<char>)
    ensures
        v@ == lit_todo(),
{
    let v = chars_vec("\"Todo\"");
    proof {
        reveal_strlit("\"Todo\"");
        assert(v@ =~= lit_todo());
    }
    v
}

fn lit_underway_vec() -> (v: Vec<char>)
    ensures
        v@ == lit_underway(),
{
    let v = chars_vec("\"Underway\"");
    proof {
        reveal_strlit("\"Underway\"");
        assert(v@ =~= lit_underway());
    }
    v
}

fn lit_complete_vec() -> (v: Vec<char>)
    ensures
        v@ == lit_complete(),
{
    let v = chars_vec("\"Complete\"");
    proof {
        reveal_strlit("\"Complete\"");
        assert(v@ =~= lit_complete());
    }
    v
}

fn push_status(out: &mut Vec<char>, st: Status)
    ensures
        final(out)@ == old(out)@ + ser_status(st),
{
    let lit = match st {
        Status::Todo => lit_todo_vec(),
        Status::Underway => lit_underway_vec(),
        Status::Complete => lit_complete_vec(),
    };
    push_lit(out, &lit);
}

fn push_two_digits(out: &mut Vec<char>, v: u32)
    requires
        v < 100,
    ensures
        final(out)@ == old(out)@ + ser_two_digits(v as int),
{
    out.push(digit_to_char(v / 10));
    out.push(digit_to_char(v % 10));
    proof {
        assert(out@ =~= old(out)@ + ser_two_digits(v as int));
    }
}

fn push_four_digits(out: &mut Vec<char>, v: u32)
    requires
        v < 10000,
    ensures
        final(out)@ == old(out)@ + ser_four_digits(v as int),
{
    out.push(digit_to_char(v / 1000));
    out.push(digit_to_char(v / 100 % 10));
    out.push(digit_to_char(v / 10 % 10));
    out.push(digit_to_char(v % 10));
    proof {
        assert(out@ =~= old(out)@ + ser_four_digits(v as int));
    }
}

fn push_date(out: &mut Vec<char>, d: &Date)
    requires
        d.is_valid(),
    ensures
        final(out)@ == old(out)@ + ser_date(*d),
{
    out.push('"');
    push_four_digits(out, d.year as u32);
    out.push('-');
    push_two_digits(out, d.month as u32);
    out.push('-');
    push_two_digits(out, d.day as u32);
    out.push('"');
    proof {
        assert(out@ =~= old(out)@ + ser_date(*d));
    }
}

fn push_progress(out: &mut Vec<char>, u: u32)
    requires
        u <= PROGRESS_SCALE,
    ensures
        final(out)@ == old(out)@ + ser_progress(u as int),
{
    out.push(digit_to_char(u / 1000000));
    out.push('.');
    out.push(digit_to_char(u / 100000 % 10));
    out.push(digit_to_char(u / 10000 % 10));
    out.push(digit_to_char(u / 1000 % 10));
    out.push(digit_to_char(u / 100 % 10));
    out.push(digit_to_char(u / 10 % 10));
    out.push(digit_to_char(u % 10));
    proof {
        assert(u / 1000000 < 10);
        assert(out@ =~= old(out)@ + ser_progress(u as int));
    }
}

fn push_string(out: &mut Vec<char>, s: &String)
    ensures
        final(out)@ == old(out)@ + ser_string(s@),
{
    out.push('"');
    let sl = s.as_str();
    let n = sl.unicode_len();
    let mut i: usize = 0;
    proof {
        assert(esc_seq(s@.take(0)) =~= Seq::<char>::empty());
        assert(out@ =~= old(out)@ + seq!['"'] + esc_seq(s@.take(0)));
    }
    while i < n
        invariant
            i <= n,
            n == s@.len(),
            sl@ == s@,
            out@ == old(out)@ + seq!['"'] + esc_seq(s@.take(i as int)),
        decreases n - i,
    {
        let ghost pre = out@;
        let c = sl.get_char(i);
        let cc = c as u32;
        if c == '"' {
            out.push('\\');
            out.push('"');
        } else if c == '\\' {
            out.push('\\');
            out.push('\\');
        } else if cc < 32 {
            out.push('\\');
            out.push('u');
            out.push('0');
            out.push('0');
            out.push(hex_to_char(cc / 16));
            out.push(hex_to_char(cc % 16));
        } else {
            out.push(c);
        }
        proof {
            assert(out@ =~= pre + esc_char(c));
            assert(s@.take(i + 1) =~= s@.take(i as int).push(s@[i as int]));
            crate::codec::lemma_esc_seq_snoc(s@.take(i as int), s@[i as int]);
            assert(out@ =~= old(out)@ + seq!['"'] + esc_seq(s@.take(i + 1)));
        }
        i = i + 1;
    }
    out.push('"');
    proof {
        assert(s@.take(n as int) =~= s@);
        assert(out@ =~= old(out)@ + ser_string(s@));
    }
}

fn push_item(out: &mut Vec<char>, it: &Item)
    requires
        it.wf(),
    ensures
        final(out)@ == old(out)@ + ser_item(it@),
{
    let l1 = lit_status_vec();
    push_lit(out, &l1);
    push_status(out, it.status());
    let l2 = lit_desc_vec();
    push_lit(out, &l2);
    push_string(out, it.desc());
    let l3 = lit_deadline_vec();
    push_lit(out, &l3);
    match it.deadline() {
        None => {
            let l4 = lit_null_vec();
            push_lit(out, &l4);
        },
        Some(d) => {
            push_date(out, &d);
        },
    }
    let l5 = lit_progress_vec();
    push_lit(out, &l5);
    push_progress(out, it.progress().units());
    out.push('}');
    proof {
        assert(out@ =~= old(out)@ + ser_item(it@));
    }
}

/// Serializes a task list to its document text. Together with `load` this
/// is the round trip: `load` of the returned text gives back an equal list.
pub fn save(list: &List) -> (r: String)
    requires
        list.wf(),
    ensures
        r@ == ser_doc(list@),
{
    let mut out: Vec<char> = Vec::new();
    let header = lit_header_vec();
    push_lit(&mut out, &header);
    let items = list.list();
    let n = items.len();
    let mut k: usize = 0;
    while k < n
        invariant
            k <= n,
            n == items@.len(),
            list.wf(),
            items@.len() == list@.len(),
            forall|j: int| 0 <= j < list@.len() ==> (#[trigger] items@[j])@ == list@[j],
            lit_header() + ser_items(list@) + seq!['}'] == out@ + (if k == 0 {
                ser_items(list@)
            } else {
                ser_rest(list@.skip(k as int))
            }) + seq!['}'],
        decreases n - k,
    {
        let ghost pre = out@;
        if k > 0 {
            out.push(',');
        }
        push_item(&mut out, &items[k]);
        proof {
            let l = list@;
            assert(items@[k as int]@ == l[k as int]);
            if k == 0 {
                assert(ser_items(l) == ser_item(l[0]) + ser_rest(l.skip(1)));
                assert(out@ =~= pre + ser_item(l[0]));
                assert(pre + ser_item(l[0]) + ser_rest(l.skip(1)) + seq!['}'] =~= pre + (ser_item(
                    l[0],
                ) + ser_rest(l.skip(1))) + seq!['}']);
            } else {
                let rest = l.skip(k as int);
                assert(rest[0] == l[k as int]);
                assert(rest.skip(1) =~= l.skip(k + 1));
                assert(ser_rest(rest) == seq![','] + ser_item(rest[0]) + ser_rest(rest.skip(1)));
                assert(out@ =~= pre + seq![','] + ser_item(l[k as int]));
                assert(pre + seq![','] + ser_item(l[k as int]) + ser_rest(l.skip(k + 1))
                    + seq!['}'] =~= pre + (seq![','] + ser_item(rest[0]) + ser_rest(rest.skip(1)))
                    + seq!['}']);
            }
        }
        k = k + 1;
    }
    out.push(']');
    out.push('}');
    proof {
        let l = list@;
        if n == 0 {
            assert(l.len() == 0);
            assert(ser_items(l) == seq![']']);
            assert(out@ =~= lit_header() + ser_items(l) + seq!['}']);
        } else {
            assert(l.skip(n as int) =~= Seq::<crate::item::ItemView>::empty());
            assert(ser_rest(l.skip(n as int)) == seq![']']);
            assert(out@ =~= lit_header() + ser_items(l) + seq!['}']);
        }
        assert(out@ =~= ser_doc(l));
    }
    string_from_chars(&out)
}

// ---------- the parser ----------

fn brace_vec() -> (v: Vec<char>)
    ensures
        v@ == seq!['}'],
{
    let v = chars_vec("}");
    proof {
        reveal_strlit("}");
        assert(v@ =~= seq!['}']);
    }
    v
}

fn match_lit(v: &Vec<char>, i: usize, lit: &Vec<char>) -> (r: Option<usize>)
    requires
        i <= v@.len(),
    ensures
        r matches Some(j) ==> p_lit(v@, i as int, lit@) == Some(j as int) && j as int == i
            + lit@.len() && j <= v@.len(),
        r is None ==> p_lit(v@, i as int, lit@) is None,
{
    let n = lit.len();
    if v.len() - i < n {
        return None;
    }
    let mut k: usize = 0;
    while k < n
        invariant
            k <= n,
            n == lit@.len(),
            i + n <= v@.len(),
            v@.len() <= usize::MAX,
            forall|m: int| 0 <= m < k ==> v@[i + m] == lit@[m],
        decreases n - k,
    {
        if v[i + k] != lit[k] {
            proof {
                if p_lit(v@, i as int, lit@) is Some {
                    assert(v@.subrange(i as int, i + n)[k as int] == v@[i + k]);
                    assert(false);
                }
            }
            return None;
        }
        k = k + 1;
    }
    proof {
        assert forall|m: int| 0 <= m < n implies v@.subrange(i as int, i + n)[m] == lit@[m] by {
            assert(v@.subrange(i as int, i + n)[m] == v@[i + m]);
        }
        assert(v@.subrange(i as int, i + n) =~= lit@);
    }
    Some(i + n)
}

fn parse_status(v: &Vec<char>, i: usize) -> (r: Option<(Status, usize)>)
    requires
        i <= v@.len(),
    ensures
        r matches Some(p) ==> p_status(v@, i as int) == Some((p.0, p.1 as int)) && i < p.1
            <= v@.len(),
        r is None ==> p_status(v@, i as int) is None,
{
    let lt = lit_todo_vec();
    match match_lit(v, i, &lt) {
        Some(j) => {
            return Some((Status::Todo, j));
        },
        None => {
        },
    }
    let lu = lit_underway_vec();
    match match_lit(v, i, &lu) {
        Some(j) => {
            return Some((Status::Underway, j));
        },
        None => {
        },
    }
    let lc = lit_complete_vec();
    match match_lit(v, i, &lc) {
        Some(j) => {
            return Some((Status::Complete, j));
        },
        None => {
        },
    }
    None
}

#[verifier::rlimit(100)]
fn parse_chars(v: &Vec<char>, i: usize) -> (r: Option<(Vec<char>, usize)>)
    requires
        i <= v@.len(),
    ensures
        r matches Some(p) ==> p_chars(v@, i as int) == Some((p.0@, p.1 as int)) && i < p.1
            <= v@.len(),
        r is None ==> p_chars(v@, i as int) is None,
{
    broadcast use vstd::utf8::char_u32_cast;

    let mut acc: Vec<char> = Vec::new();
    let mut pos: usize = i;
    proof {
        assert(acc@ =~= Seq::<char>::empty());
    }
    loop
        invariant
            i <= pos <= v@.len(),
            p_chars(v@, i as int) == (match p_chars(v@, pos as int) {
                Some((t, j)) => Some((acc@ + t, j)),
                None => None::<(Seq<char>, int)>,
            }),
        decreases v@.len() - pos,
    {
        if pos >= v.len() {
            return None;
        }
        let c = v[pos];
        let ghost prev = acc@;
        if c == '"' {
            proof {
                assert(prev + Seq::<char>::empty() =~= prev);
            }
            return Some((acc, pos + 1));
        } else if c == '\\' {
            if pos + 1 >= v.len() {
                return None;
            }
            let c2 = v[pos + 1];
            if c2 == '"' || c2 == '\\' {
                acc.push(c2);
                proof {
                    let after = p_chars(v@, pos + 2);
                    if after is Some {
                        let (t, j) = after->Some_0;
                        assert(acc@ + t =~= prev + (seq![c2] + t));
                    }
                }
                pos = pos + 2;
            } else if c2 == 'u' {
                if v.len() - pos <= 5 {
                    return None;
                }
                if v[pos + 2] != '0' || v[pos + 3] != '0' {
                    return None;
                }
                let h1 = match char_hex(v[pos + 4]) {
                    Some(h) => h,
                    None => {
                        return None;
                    },
                };
                let h2 = match char_hex(v[pos + 5]) {
                    Some(h) => h,
                    None => {
                        return None;
                    },
                };
                let w = 16 * h1 + h2;
                if w >= 32 {
                    return None;
                }
                let ch = control_char(w);
                proof {
                    assert((w as u32) as char == ch);
                    let after = p_chars(v@, pos + 6);
                    if after is Some {
                        let (t, j) = after->Some_0;
                        assert(acc@.push(ch) + t =~= prev + (seq![ch] + t));
                    }
                }
                acc.push(ch);
                pos = pos + 6;
            } else {
                return None;
            }
        } else if (c as u32) >= 32 {
            acc.push(c);
            proof {
                let after = p_chars(v@, pos + 1);
                if after is Some {
                    let (t, j) = after->Some_0;
                    assert(acc@ + t =~= prev + (seq![c] + t));
                }
            }
            pos = pos + 1;
        } else {
            return None;
        }
    }
}

fn parse_string(v: &Vec<char>, i: usize) -> (r: Option<(Vec<char>, usize)>)
    requires
        i <= v@.len(),
    ensures
        r matches Some(p) ==> p_string(v@, i as int) == Some((p.0@, p.1 as int)) && i < p.1
            <= v@.len(),
        r is None ==> p_string(v@, i as int) is None,
{
    if i >= v.len() {
        return None;
    }
    if v[i] != '"' {
        return None;
    }
    parse_chars(v, i + 1)
}

fn parse_two_digits(v: &Vec<char>, i: usize) -> (r: Option<(u32, usize)>)
    requires
        i <= v@.len(),
    ensures
        r matches Some(p) ==> p_two_digits(v@, i as int) == Some((p.0 as int, p.1 as int)) && p.1
            as int == i + 2 && p.1 <= v@.len() && p.0 < 100,
        r is None ==> p_two_digits(v@, i as int) is None,
{
    if v.len() - i < 2 {
        return None;
    }
    let d1 = match char_digit(v[i]) {
        Some(d) => d,
        None => {
            return None;
        },
    };
    let d0 = match char_digit(v[i + 1]) {
        Some(d) => d,
        None => {
            return None;
        },
    };
    Some((10 * d1 + d0, i + 2))
}

fn parse_four_digits(v: &Vec<char>, i: usize) -> (r: Option<(u32, usize)>)
    requires
        i <= v@.len(),
    ensures
        r matches Some(p) ==> p_four_digits(v@, i as int) == Some((p.0 as int, p.1 as int)) && p.1
            as int == i + 4 && p.1 <= v@.len() && p.0 < 10000,
        r is None ==> p_four_digits(v@, i as int) is None,
{
    if v.len() - i < 4 {
        return None;
    }
    let d3 = match char_digit(v[i]) {
        Some(d) => d,
        None => {
            return None;
        },
    };
    let d2 = match char_digit(v[i + 1]) {
        Some(d) => d,
        None => {
            return None;
        },
    };
    let d1 = match char_digit(v[i + 2]) {
        Some(d) => d,
        None => {
            return None;
        },
    };
    let d0 = match char_digit(v[i + 3]) {
        Some(d) => d,
        None => {
            return None;
        },
    };
    Some((1000 * d3 + 100 * d2 + 10 * d1 + d0, i + 4))
}

fn parse_date(v: &Vec<char>, i: usize) -> (r: Option<(Date, usize)>)
    requires
        i <= v@.len(),
    ensures
        r matches Some(p) ==> p_date(v@, i as int) == Some((p.0, p.1 as int)) && i < p.1
            <= v@.len() && p.0.is_valid(),
        r is None ==> p_date(v@, i as int) is None,
{
    if v.len() - i < 12 {
        return None;
    }
    if v[i] != '"' || v[i + 5] != '-' || v[i + 8] != '-' || v[i + 11] != '"' {
        return None;
    }
    let y = match parse_four_digits(v, i + 1) {
        Some(p) => p.0,
        None => {
            return None;
        },
    };
    let m = match parse_two_digits(v, i + 6) {
        Some(p) => p.0,
        None => {
            return None;
        },
    };
    let d = match parse_two_digits(v, i + 9) {
        Some(p) => p.0,
        None => {
            return None;
        },
    };
    match Date::new(y as u16, m as u8, d as u8) {
        Ok(date) => Some((date, i + 12)),
        Err(_) => None,
    }
}

fn parse_deadline(v: &Vec<char>, i: usize) -> (r: Option<(Option<Date>, usize)>)
    requires
        i <= v@.len(),
    ensures
        r matches Some(p) ==> p_deadline(v@, i as int) == Some((p.0, p.1 as int)) && i < p.1
            <= v@.len() && (p.0 matches Some(d) ==> d.is_valid()),
        r is None ==> p_deadline(v@, i as int) is None,
{
    if i < v.len() && v[i] == 'n' {
        let ln = lit_null_vec();
        match match_lit(v, i, &ln) {
            Some(j) => Some((None, j)),
            None => None,
        }
    } else {
        match parse_date(v, i) {
            Some(p) => Some((Some(p.0), p.1)),
            None => None,
        }
    }
}

fn parse_progress(v: &Vec<char>, i: usize) -> (r: Option<(u32, usize)>)
    requires
        i <= v@.len(),
    ensures
        r matches Some(p) ==> p_progress(v@, i as int) == Some((p.0 as int, p.1 as int)) && i < p.1
            <= v@.len() && p.0 <= PROGRESS_SCALE,
        r is None ==> p_progress(v@, i as int) is None,
{
    if v.len() - i < 8 {
        return None;
    }
    let d6 = match char_digit(v[i]) {
        Some(d) => d,
        None => {
            return None;
        },
    };
    if v[i + 1] != '.' {
        return None;
    }
    let d5 = match char_digit(v[i + 2]) {
        Some(d) => d,
        None => {
            return None;
        },
    };
    let d4 = match char_digit(v[i + 3]) {
        Some(d) => d,
        None => {
            return None;
        },
    };
    let d3 = match char_digit(v[i + 4]) {
        Some(d) => d,
        None => {
            return None;
        },
    };
    let d2 = match char_digit(v[i + 5]) {
        Some(d) => d,
        None => {
            return None;
        },
    };
    let d1 = match char_digit(v[i + 6]) {
        Some(d) => d,
        None => {
            return None;
        },
    };
    let d0 = match char_digit(v[i + 7]) {
        Some(d) => d,
        None => {
            return None;
        },
    };
    let u = 1000000 * d6 + 100000 * d5 + 10000 * d4 + 1000 * d3 + 100 * d2 + 10 * d1 + d0;
    if u > PROGRESS_SCALE {
        return None;
    }
    Some((u, i + 8))
}

#[verifier::rlimit(100)]
#[verifier::spinoff_prover]
fn parse_item(v: &Vec<char>, i: usize) -> (r: Option<(Item, usize)>)
    requires
        i <= v@.len(),
    ensures
        r matches Some(p) ==> p_item(v@, i as int) == Some((p.0@, p.1 as int)) && i < p.1
            <= v@.len() && p.0.wf(),
        r is None ==> p_item(v@, i as int) is None,
{
    let ls = lit_status_vec();
    let j1 = match match_lit(v, i, &ls) {
        Some(j) => j,
        None => {
            return None;
        },
    };
    let (st, j2) = match parse_status(v, j1) {
        Some(p) => p,
        None => {
            return None;
        },
    };
    let ld = lit_desc_vec();
    let j3 = match match_lit(v, j2, &ld) {
        Some(j) => j,
        None => {
            return None;
        },
    };
    let (desc_chars, j4) = match parse_string(v, j3) {
        Some(p) => p,
        None => {
            return None;
        },
    };
    let ldl = lit_deadline_vec();
    let j5 = match match_lit(v, j4, &ldl) {
        Some(j) => j,
        None => {
            return None;
        },
    };
    let (dl, j6) = match parse_deadline(v, j5) {
        Some(p) => p,
        None => {
            return None;
        },
    };
    let lp = lit_progress_vec();
    let j7 = match match_lit(v, j6, &lp) {
        Some(j) => j,
        None => {
            return None;
        },
    };
    let (u, j8) = match parse_progress(v, j7) {
        Some(p) => p,
        None => {
            return None;
        },
    };
    let rb = brace_vec();
    let j9 = match match_lit(v, j8, &rb) {
        Some(j) => j,
        None => {
            return None;
        },
    };
    let prog = match Progress::new(u) {
        Ok(p) => p,
        Err(_) => {
            proof {
                assert(false);
            }
            Progress::zero()
        },
    };
    let mut it = Item::new(string_from_chars(&desc_chars));
    match dl {
        Some(d) => it.set_deadline(d),
        None => {
        },
    }
    it.set_progress(prog);
    let same = match (it.status(), st) {
        (Status::Todo, Status::Todo) => true,
        (Status::Underway, Status::Underway) => true,
        (Status::Complete, Status::Complete) => true,
        _ => false,
    };
    if same {
        Some((it, j9))
    } else {
        None
    }
}

#[verifier::rlimit(100)]
#[verifier::spinoff_prover]
fn parse_items(v: &Vec<char>, i: usize) -> (r: Option<(List, usize)>)
    requires
        i <= v@.len(),
    ensures
        r matches Some(p) ==> p_items(v@, i as int) == Some((p.0@, p.1 as int)) && i < p.1
            <= v@.len() && p.0.wf(),
        r is None ==> p_items(v@, i as int) is None,
{
    if i >= v.len() {
        return None;
    }
    if v[i] == ']' {
        let l = List::new();
        return Some((l, i + 1));
    }
    let (first, j0) = match parse_item(v, i) {
        Some(p) => p,
        None => {
            return None;
        },
    };
    let mut list = List::new();
    list.add(first);
    let mut pos = j0;
    proof {
        assert(Seq::<crate::item::ItemView>::empty().push(first@) =~= seq![first@]);
    }
    loop
        invariant
            i < pos <= v@.len(),
            list.wf(),
            p_items(v@, i as int) == (match p_rest(v@, pos as int) {
                Some((t, k)) => Some((list@ + t, k)),
                None => None::<(Seq<crate::item::ItemView>, int)>,
            }),
        decreases v@.len() - pos,
    {
        if pos >= v.len() {
            return None;
        }
        let c = v[pos];
        if c == ']' {
            proof {
                assert(list@ + Seq::<crate::item::ItemView>::empty() =~= list@);
            }
            return Some((list, pos + 1));
        }
        if c != ',' {
            return None;
        }
        let (it, j2) = match parse_item(v, pos + 1) {
            Some(p) => p,
            None => {
                return None;
            },
        };
        let ghost prev = list@;
        list.add(it);
        proof {
            let after = p_rest(v@, j2 as int);
            if after is Some {
                let (t2, k2) = after->Some_0;
                assert(list@ + t2 =~= prev + (seq![it@] + t2));
            }
        }
        pos = j2;
    }
}

/// Parses the document text back into a task list. The result is exactly
/// what the document parse `p_doc` gives: in particular, for the text that
/// `save` wrote for a well-formed list, `lemma_document_round_trip` shows
/// this returns that very list, so `load` of a `save` is the identity.
pub fn load(text: &str) -> (r: Result<List, PersistenceError>)
    ensures
        r matches Ok(l) ==> p_doc(text@) == Some(l@) && l.wf(),
        r matches Err(e) ==> p_doc(text@) is None && e == PersistenceError::Malformed,
{
    let v = chars_vec(text);
    let header = lit_header_vec();
    let i = match match_lit(&v, 0, &header) {
        Some(i) => i,
        None => {
            return Err(PersistenceError::Malformed);
        },
    };
    let (list, j) = match parse_items(&v, i) {
        Some(p) => p,
        None => {
            return Err(PersistenceError::Malformed);
        },
    };
    if j < v.len() {
        if v[j] == '}' && j + 1 == v.len() {
            return Ok(list);
        }
    }
    Err(PersistenceError::Malformed)
}

} // verus!

