use vstd::prelude::*;

use crate::item::Date;
use crate::item::ItemView;
use crate::item::PROGRESS_SCALE;
use crate::item::Status;
use crate::item::spec_status_of;

verus! {

// The document form of a task list is a single JSON object with one array
// field, written without spaces and with every field in one fixed order:
//
//   {"items":[{"status":"Todo","desc":"...","deadline":null,"progress":0.250000},...]}
//
// The deadline is `null` or a quoted `YYYY-MM-DD` date; the progress is a
// decimal with one integer digit and six fraction digits; the description is
// a JSON string in which `"`, `\` and control characters are escaped. The
// spec functions below define that form (`ser_...`) and its parse
// (`p_...`), and the lemmas prove that parsing a serialized list gives the
// list back.

// ---------- characters ----------

pub open spec fn digit_char(d: int) -> char {
    if d == 0 {
        '0'
    } else if d == 1 {
        '1'
    } else if d == 2 {
        '2'
    } else if d == 3 {
        '3'
    } else if d == 4 {
        '4'
    } else if d == 5 {
        '5'
    } else if d == 6 {
        '6'
    } else if d == 7 {
        '7'
    } else if d == 8 {
        '8'
    } else {
        '9'
    }
}

pub open spec fn is_digit_char(c: char) -> bool {
    48 <= c as u32 <= 57
}

pub open spec fn digit_val(c: char) -> int {
    c as u32 - 48
}

pub open spec fn hex_char(d: int) -> char {
    if d < 10 {
        digit_char(d)
    } else if d == 10 {
        'a'
    } else if d == 11 {
        'b'
    } else if d == 12 {
        'c'
    } else if d == 13 {
        'd'
    } else if d == 14 {
        'e'
    } else {
        'f'
    }
}

pub open spec fn is_hex_lower(c: char) -> bool {
    (48 <= c as u32 <= 57) || (97 <= c as u32 <= 102)
}

pub open spec fn hex_val(c: char) -> int {
    if 48 <= c as u32 <= 57 {
        c as u32 - 48
    } else {
        c as u32 - 87
    }
}

proof fn lemma_digit_char(d: int)
    requires
        0 <= d < 10,
    ensures
        is_digit_char(digit_char(d)),
        digit_val(digit_char(d)) == d,
        is_hex_lower(digit_char(d)),
        hex_val(digit_char(d)) == d,
{
}

proof fn lemma_hex_char(d: int)
    requires
        0 <= d < 16,
    ensures
        is_hex_lower(hex_char(d)),
        hex_val(hex_char(d)) == d,
        hex_char(d) != '"' && hex_char(d) != '\\',
{
    if d < 10 {
        lemma_digit_char(d);
    }
}

// ---------- fixed pieces of the document ----------

pub open spec fn lit_header() -> Seq<char> {
    seq!['{', '"', 'i', 't', 'e', 'm', 's', '"', ':', '[']
}

pub open spec fn lit_status() -> Seq<char> {
    seq!['{', '"', 's', 't', 'a', 't', 'u', 's', '"', ':']
}

pub open spec fn lit_desc() -> Seq<char> {
    seq![',', '"', 'd', 'e', 's', 'c', '"', ':']
}

pub open spec fn lit_deadline() -> Seq<char> {
    seq![',', '"', 'd', 'e', 'a', 'd', 'l', 'i', 'n', 'e', '"', ':']
}

pub open spec fn lit_progress() -> Seq<char> {
    seq![',', '"', 'p', 'r', 'o', 'g', 'r', 'e', 's', 's', '"', ':']
}

pub open spec fn lit_null() -> Seq<char> {
    seq!['n', 'u', 'l', 'l']
}

pub open spec fn lit_todo() -> Seq<char> {
    seq!['"', 'T', 'o', 'd', 'o', '"']
}

pub open spec fn lit_underway() -> Seq<char> {
    seq!['"', 'U', 'n', 'd', 'e', 'r', 'w', 'a', 'y', '"']
}

pub open spec fn lit_complete() -> Seq<char> {
    seq!['"', 'C', 'o', 'm', 'p', 'l', 'e', 't', 'e', '"']
}

// ---------- the serializer ----------

/// How one character of a description is written inside a JSON string.
pub open spec fn esc_char(c: char) -> Seq<char> {
    if c == '"' {
        seq!['\\', '"']
    } else if c == '\\' {
        seq!['\\', '\\']
    } else if (c as u32) < 32 {
        seq!['\\', 'u', '0', '0', hex_char(c as u32 as int / 16), hex_char(c as u32 as int % 16)]
    } else {
        seq![c]
    }
}

pub open spec fn esc_seq(s: Seq<char>) -> Seq<char>
    decreases s.len(),
{
    if s.len() == 0 {
        Seq::empty()
    } else {
        esc_char(s[0]) + esc_seq(s.skip(1))
    }
}

pub open spec fn ser_string(s: Seq<char>) -> Seq<char> {
    seq!['"'] + esc_seq(s) + seq!['"']
}

pub open spec fn ser_status(st: Status) -> Seq<char> {
    match st {
        Status::Todo => lit_todo(),
        Status::Underway => lit_underway(),
        Status::Complete => lit_complete(),
    }
}

pub open spec fn ser_two_digits(v: int) -> Seq<char> {
    seq![digit_char(v / 10 % 10), digit_char(v % 10)]
}

pub open spec fn ser_four_digits(v: int) -> Seq<char> {
    seq![digit_char(v / 1000 % 10), digit_char(v / 100 % 10), digit_char(v / 10 % 10), digit_char(
        v % 10,
    )]
}

pub open spec fn ser_date(d: Date) -> Seq<char> {
    seq!['"'] + ser_four_digits(d.year as int) + seq!['-'] + ser_two_digits(d.month as int)
        + seq!['-'] + ser_two_digits(d.day as int) + seq!['"']
}

pub open spec fn ser_deadline(d: Option<Date>) -> Seq<char> {
    match d {
        None => lit_null(),
        Some(date) => ser_date(date),
    }
}

/// The progress fraction as a decimal: one integer digit, a point, six
/// fraction digits, each fraction digit one decimal digit of the fixed-point
/// units.
pub open spec fn ser_progress(u: int) -> Seq<char> {
    seq![digit_char(u / 1000000 % 10), '.', digit_char(u / 100000 % 10), digit_char(
        u / 10000 % 10,
    ), digit_char(u / 1000 % 10), digit_char(u / 100 % 10), digit_char(u / 10 % 10), digit_char(
        u % 10,
    )]
}

pub open spec fn ser_item(iv: ItemView) -> Seq<char> {
    lit_status() + ser_status(iv.status) + lit_desc() + ser_string(iv.desc) + lit_deadline()
        + ser_deadline(iv.deadline) + lit_progress() + ser_progress(iv.progress) + seq!['}']
}

pub open spec fn ser_rest(l: Seq<ItemView>) -> Seq<char>
    decreases l.len(),
{
    if l.len() == 0 {
        seq![']']
    } else {
        seq![','] + ser_item(l[0]) + ser_rest(l.skip(1))
    }
}

pub open spec fn ser_items(l: Seq<ItemView>) -> Seq<char> {
    if l.len() == 0 {
        seq![']']
    } else {
        ser_item(l[0]) + ser_rest(l.skip(1))
    }
}

/// The whole document for a task list.
pub open spec fn ser_doc(l: Seq<ItemView>) -> Seq<char> {
    lit_header() + ser_items(l) + seq!['}']
}

// ---------- the parser ----------

pub open spec fn p_lit(s: Seq<char>, i: int, lit: Seq<char>) -> Option<int> {
    if 0 <= i && i + lit.len() <= s.len() && s.subrange(i, i + lit.len()) == lit {
        Some(i + lit.len())
    } else {
        None
    }
}

pub open spec fn p_status(s: Seq<char>, i: int) -> Option<(Status, int)> {
    match p_lit(s, i, lit_todo()) {
        Some(j) => Some((Status::Todo, j)),
        None => match p_lit(s, i, lit_underway()) {
            Some(j) => Some((Status::Underway, j)),
            None => match p_lit(s, i, lit_complete()) {
                Some(j) => Some((Status::Complete, j)),
                None => None,
            },
        },
    }
}

/// The characters of a JSON string after its opening quote, up to and over
/// the closing quote. Accepts exactly what `esc_char` writes: `\"`, `\\`,
/// `\u00` with two lowercase hex digits below 32, and raw characters at 32
/// and above.
pub open spec fn p_chars(s: Seq<char>, i: int) -> Option<(Seq<char>, int)>
    decreases s.len() - i,
{
    if i < 0 || i >= s.len() {
        None
    } else if s[i] == '"' {
        Some((Seq::empty(), i + 1))
    } else if s[i] == '\\' {
        if i + 1 < s.len() && (s[i + 1] == '"' || s[i + 1] == '\\') {
            match p_chars(s, i + 2) {
                Some((t, j)) => Some((seq![s[i + 1]] + t, j)),
                None => None,
            }
        } else if i + 5 < s.len() && s[i + 1] == 'u' && s[i + 2] == '0' && s[i + 3] == '0'
            && is_hex_lower(s[i + 4]) && is_hex_lower(s[i + 5]) && 16 * hex_val(s[i + 4]) + hex_val(
            s[i + 5],
        ) < 32 {
            match p_chars(s, i + 6) {
                Some((t, j)) => Some(
                    (seq![((16 * hex_val(s[i + 4]) + hex_val(s[i + 5])) as u32) as char] + t, j),
                ),
                None => None,
            }
        } else {
            None
        }
    } else if (s[i] as u32) >= 32 {
        match p_chars(s, i + 1) {
            Some((t, j)) => Some((seq![s[i]] + t, j)),
            None => None,
        }
    } else {
        None
    }
}

pub open spec fn p_string(s: Seq<char>, i: int) -> Option<(Seq<char>, int)> {
    if 0 <= i && i < s.len() && s[i] == '"' {
        p_chars(s, i + 1)
    } else {
        None
    }
}

pub open spec fn p_two_digits(s: Seq<char>, i: int) -> Option<(int, int)> {
    if 0 <= i && i + 2 <= s.len() && is_digit_char(s[i]) && is_digit_char(s[i + 1]) {
        Some((10 * digit_val(s[i]) + digit_val(s[i + 1]), i + 2))
    } else {
        None
    }
}

pub open spec fn p_four_digits(s: Seq<char>, i: int) -> Option<(int, int)> {
    if 0 <= i && i + 4 <= s.len() && is_digit_char(s[i]) && is_digit_char(s[i + 1])
        && is_digit_char(s[i + 2]) && is_digit_char(s[i + 3]) {
        Some(
            (1000 * digit_val(s[i]) + 100 * digit_val(s[i + 1]) + 10 * digit_val(s[i + 2])
                + digit_val(s[i + 3]), i + 4),
        )
    } else {
        None
    }
}

pub open spec fn p_date(s: Seq<char>, i: int) -> Option<(Date, int)> {
    if 0 <= i && i + 12 <= s.len() && s[i] == '"' && s[i + 5] == '-' && s[i + 8] == '-' && s[i
        + 11] == '"' {
        match p_four_digits(s, i + 1) {
            Some((y, _j1)) => match p_two_digits(s, i + 6) {
                Some((m, _j2)) => match p_two_digits(s, i + 9) {
                    Some((d, _j3)) => {
                        let date = Date { year: y as u16, month: m as u8, day: d as u8 };
                        if date.is_valid() {
                            Some((date, i + 12))
                        } else {
                            None
                        }
                    },
                    None => None,
                },
                None => None,
            },
            None => None,
        }
    } else {
        None
    }
}

pub open spec fn p_deadline(s: Seq<char>, i: int) -> Option<(Option<Date>, int)> {
    if 0 <= i && i < s.len() && s[i] == 'n' {
        match p_lit(s, i, lit_null()) {
            Some(j) => Some((None, j)),
            None => None,
        }
    } else {
        match p_date(s, i) {
            Some((d, j)) => Some((Some(d), j)),
            None => None,
        }
    }
}

pub open spec fn p_progress(s: Seq<char>, i: int) -> Option<(int, int)> {
    if 0 <= i && i + 8 <= s.len() && is_digit_char(s[i]) && s[i + 1] == '.' && is_digit_char(
        s[i + 2],
    ) && is_digit_char(s[i + 3]) && is_digit_char(s[i + 4]) && is_digit_char(s[i + 5])
        && is_digit_char(s[i + 6]) && is_digit_char(s[i + 7]) {
        let u = 1000000 * digit_val(s[i]) + 100000 * digit_val(s[i + 2]) + 10000 * digit_val(
            s[i + 3],
        ) + 1000 * digit_val(s[i + 4]) + 100 * digit_val(s[i + 5]) + 10 * digit_val(s[i + 6])
            + digit_val(s[i + 7]);
        if u <= PROGRESS_SCALE {
            Some((u, i + 8))
        } else {
            None
        }
    } else {
        None
    }
}

pub open spec fn p_item(s: Seq<char>, i: int) -> Option<(ItemView, int)> {
    match p_lit(s, i, lit_status()) {
        Some(j1) => match p_status(s, j1) {
            Some((st, j2)) => match p_lit(s, j2, lit_desc()) {
                Some(j3) => match p_string(s, j3) {
                    Some((desc, j4)) => match p_lit(s, j4, lit_deadline()) {
                        Some(j5) => match p_deadline(s, j5) {
                            Some((dl, j6)) => match p_lit(s, j6, lit_progress()) {
                                Some(j7) => match p_progress(s, j7) {
                                    Some((u, j8)) => match p_lit(s, j8, seq!['}']) {
                                        Some(j9) => if st == spec_status_of(u) {
                                            Some(
                                                (ItemView {
                                                    status: st,
                                                    desc,
                                                    deadline: dl,
                                                    progress: u,
                                                }, j9),
                                            )
                                        } else {
                                            None
                                        },
                                        None => None,
                                    },
                                    None => None,
                                },
                                None => None,
                            },
                            None => None,
                        },
                        None => None,
                    },
                    None => None,
                },
                None => None,
            },
            None => None,
        },
        None => None,
    }
}

pub open spec fn p_rest(s: Seq<char>, i: int) -> Option<(Seq<ItemView>, int)>
    decreases s.len() - i,
{
    if i < 0 || i >= s.len() {
        None
    } else if s[i] == ']' {
        Some((Seq::empty(), i + 1))
    } else if s[i] == ',' {
        match p_item(s, i + 1) {
            Some((iv, j)) => if i + 1 < j && j <= s.len() {
                match p_rest(s, j) {
                    Some((l, k)) => Some((seq![iv] + l, k)),
                    None => None,
                }
            } else {
                None
            },
            None => None,
        }
    } else {
        None
    }
}

pub open spec fn p_items(s: Seq<char>, i: int) -> Option<(Seq<ItemView>, int)> {
    if i < 0 || i >= s.len() {
        None
    } else if s[i] == ']' {
        Some((Seq::empty(), i + 1))
    } else {
        match p_item(s, i) {
            Some((iv, j)) => if i < j && j <= s.len() {
                match p_rest(s, j) {
                    Some((l, k)) => Some((seq![iv] + l, k)),
                    None => None,
                }
            } else {
                None
            },
            None => None,
        }
    }
}

/// The parse of a whole document: the header, the items, the closing brace,
/// and nothing after it.
pub open spec fn p_doc(s: Seq<char>) -> Option<Seq<ItemView>> {
    match p_lit(s, 0, lit_header()) {
        Some(i) => match p_items(s, i) {
            Some((l, j)) => if j < s.len() && s[j] == '}' && j + 1 == s.len() {
                Some(l)
            } else {
                None
            },
            None => None,
        },
        None => None,
    }
}

// ---------- the round trip ----------

/// `x` stands in `s` at position `i`.
pub open spec fn has_at(s: Seq<char>, i: int, x: Seq<char>) -> bool {
    0 <= i && i + x.len() <= s.len() && s.subrange(i, i + x.len()) == x
}

proof fn lemma_at_concat(s: Seq<char>, i: int, x: Seq<char>, y: Seq<char>)
    requires
        has_at(s, i, x + y),
    ensures
        has_at(s, i, x),
        has_at(s, i + x.len(), y),
{
    let xy = x + y;
    assert forall|k: int| 0 <= k < xy.len() implies s[i + k] == xy[k] by {
        assert(s.subrange(i, i + xy.len())[k] == s[i + k]);
    }
    assert(s.subrange(i, i + x.len()) =~= x);
    assert forall|k: int| 0 <= k < y.len() implies s[i + x.len() + k] == y[k] by {
        assert(s[i + (x.len() + k)] == xy[x.len() + k]);
    }
    assert(s.subrange(i + x.len(), i + x.len() + y.len()) =~= y);
}

proof fn lemma_at_index(s: Seq<char>, i: int, x: Seq<char>)
    requires
        has_at(s, i, x),
    ensures
        forall|k: int| 0 <= k < x.len() ==> s[i + k] == x[k],
{
    assert forall|k: int| 0 <= k < x.len() implies s[i + k] == x[k] by {
        assert(s.subrange(i, i + x.len())[k] == s[i + k]);
    }
}

proof fn lemma_at_char(s: Seq<char>, i: int, x: Seq<char>, k: int)
    requires
        has_at(s, i, x),
        0 <= k < x.len(),
    ensures
        s[i + k] == x[k],
{
    assert(s.subrange(i, i + x.len())[k] == s[i + k]);
}

proof fn lemma_two_digits_value(v: int)
    requires
        0 <= v < 100,
    ensures
        10 * (v / 10 % 10) + v % 10 == v,
{
}

proof fn lemma_four_digits_value(v: int)
    requires
        0 <= v < 10000,
    ensures
        1000 * (v / 1000 % 10) + 100 * (v / 100 % 10) + 10 * (v / 10 % 10) + v % 10 == v,
{
    vstd::arithmetic::div_mod::lemma_fundamental_div_mod(v, 10);
    vstd::arithmetic::div_mod::lemma_fundamental_div_mod(v / 10, 10);
    vstd::arithmetic::div_mod::lemma_div_denominator(v, 10, 10);
    vstd::arithmetic::div_mod::lemma_fundamental_div_mod(v / 100, 10);
    vstd::arithmetic::div_mod::lemma_div_denominator(v, 100, 10);
    vstd::arithmetic::div_mod::lemma_fundamental_div_mod(v, 1000);
    assert(v / 1000 < 10);
    vstd::arithmetic::div_mod::lemma_small_mod((v / 1000) as nat, 10);
}

proof fn lemma_seven_digits_value(v: int)
    requires
        0 <= v < 10000000,
    ensures
        1000000 * (v / 1000000 % 10) + 100000 * (v / 100000 % 10) + 10000 * (v / 10000 % 10) + 1000
            * (v / 1000 % 10) + 100 * (v / 100 % 10) + 10 * (v / 10 % 10) + v % 10 == v,
{
    vstd::arithmetic::div_mod::lemma_fundamental_div_mod(v, 10);
    vstd::arithmetic::div_mod::lemma_fundamental_div_mod(v / 10, 10);
    vstd::arithmetic::div_mod::lemma_div_denominator(v, 10, 10);
    vstd::arithmetic::div_mod::lemma_fundamental_div_mod(v / 100, 10);
    vstd::arithmetic::div_mod::lemma_div_denominator(v, 100, 10);
    vstd::arithmetic::div_mod::lemma_fundamental_div_mod(v / 1000, 10);
    vstd::arithmetic::div_mod::lemma_div_denominator(v, 1000, 10);
    vstd::arithmetic::div_mod::lemma_fundamental_div_mod(v / 10000, 10);
    vstd::arithmetic::div_mod::lemma_div_denominator(v, 10000, 10);
    vstd::arithmetic::div_mod::lemma_fundamental_div_mod(v / 100000, 10);
    vstd::arithmetic::div_mod::lemma_div_denominator(v, 100000, 10);
    vstd::arithmetic::div_mod::lemma_fundamental_div_mod(v, 1000000);
    assert(v / 1000000 < 10);
    vstd::arithmetic::div_mod::lemma_small_mod((v / 1000000) as nat, 10);
}

/// Escaping one character more extends the escaped text by that
/// character's escape.
pub proof fn lemma_esc_seq_snoc(v: Seq<char>, c: char)
    ensures
        esc_seq(v.push(c)) == esc_seq(v) + esc_char(c),
    decreases v.len(),
{
    if v.len() == 0 {
        assert(v.push(c)[0] == c);
        assert(v.push(c).skip(1) =~= Seq::<char>::empty());
        assert(esc_seq(v.push(c)) == esc_char(c) + esc_seq(Seq::<char>::empty()));
        assert(esc_char(c) + Seq::<char>::empty() =~= esc_char(c));
        assert(esc_seq(v) + esc_char(c) =~= esc_char(c));
    } else {
        assert(v.push(c)[0] == v[0]);
        assert(v.push(c).skip(1) =~= v.skip(1).push(c));
        lemma_esc_seq_snoc(v.skip(1), c);
        assert(esc_seq(v.push(c)) == esc_char(v[0]) + (esc_seq(v.skip(1)) + esc_char(c)));
        assert(esc_char(v[0]) + (esc_seq(v.skip(1)) + esc_char(c)) =~= (esc_char(v[0]) + esc_seq(
            v.skip(1),
        )) + esc_char(c));
    }
}

/// Every task in the sequence is well formed.
pub open spec fn items_wf(l: Seq<ItemView>) -> bool {
    forall|k: int| 0 <= k < l.len() ==> (#[trigger] l[k]).wf()
}

proof fn lemma_rt_status(s: Seq<char>, i: int, st: Status)
    requires
        has_at(s, i, ser_status(st)),
    ensures
        p_status(s, i) == Some((st, i + ser_status(st).len())),
{
    lemma_at_index(s, i, ser_status(st));
    match st {
        Status::Todo => {
        },
        Status::Underway => {
            if p_lit(s, i, lit_todo()) is Some {
                assert(s.subrange(i, i + lit_todo().len())[1] == s[i + 1]);
                assert(false);
            }
        },
        Status::Complete => {
            if p_lit(s, i, lit_todo()) is Some {
                assert(s.subrange(i, i + lit_todo().len())[1] == s[i + 1]);
                assert(false);
            }
            if p_lit(s, i, lit_underway()) is Some {
                assert(s.subrange(i, i + lit_underway().len())[1] == s[i + 1]);
                assert(false);
            }
        },
    }
}

proof fn lemma_rt_chars(s: Seq<char>, i: int, v: Seq<char>)
    requires
        has_at(s, i, esc_seq(v) + seq!['"']),
    ensures
        p_chars(s, i) == Some((v, i + esc_seq(v).len() + 1)),
    decreases v.len(),
{
    broadcast use vstd::utf8::char_u32_cast;

    if v.len() == 0 {
        lemma_at_char(s, i, esc_seq(v) + seq!['"'], 0);
        assert(s[i] == '"');
        assert(v =~= Seq::<char>::empty());
    } else {
        let c = v[0];
        let e = esc_char(c);
        let tail = esc_seq(v.skip(1)) + seq!['"'];
        assert(esc_seq(v) == esc_char(v[0]) + esc_seq(v.skip(1)));
        assert(esc_seq(v) + seq!['"'] =~= e + tail);
        lemma_at_concat(s, i, e, tail);
        lemma_at_char(s, i, e, 0);
        lemma_rt_chars(s, i + e.len(), v.skip(1));
        if c == '"' {
            lemma_at_char(s, i, e, 1);
            assert(s[i] == '\\' && s[i + 1] == '"');
            assert(seq![s[i + 1]] + v.skip(1) =~= v);
        } else if c == '\\' {
            lemma_at_char(s, i, e, 1);
            assert(s[i] == '\\' && s[i + 1] == '\\');
            assert(seq![s[i + 1]] + v.skip(1) =~= v);
        } else if (c as u32) < 32 {
            let hi = c as u32 as int / 16;
            let lo = c as u32 as int % 16;
            lemma_hex_char(hi);
            lemma_hex_char(lo);
            lemma_at_char(s, i, e, 1);
            lemma_at_char(s, i, e, 2);
            lemma_at_char(s, i, e, 3);
            lemma_at_char(s, i, e, 4);
            lemma_at_char(s, i, e, 5);
            assert(s[i] == '\\' && s[i + 1] == 'u' && s[i + 2] == '0' && s[i + 3] == '0');
            assert(s[i + 4] == hex_char(hi) && s[i + 5] == hex_char(lo));
            assert(16 * hex_val(s[i + 4]) + hex_val(s[i + 5]) == c as u32);
            vstd::utf8::char_u32_cast(c, (16 * hex_val(s[i + 4]) + hex_val(s[i + 5])) as u32);
            assert(((16 * hex_val(s[i + 4]) + hex_val(s[i + 5])) as u32) as char == c);
            assert(seq![((16 * hex_val(s[i + 4]) + hex_val(s[i + 5])) as u32) as char] + v.skip(1)
                =~= v);
        } else {
            assert(s[i] == c);
            assert(seq![s[i]] + v.skip(1) =~= v);
        }
    }
}

proof fn lemma_rt_string(s: Seq<char>, i: int, v: Seq<char>)
    requires
        has_at(s, i, ser_string(v)),
    ensures
        p_string(s, i) == Some((v, i + ser_string(v).len())),
{
    assert(ser_string(v) =~= seq!['"'] + (esc_seq(v) + seq!['"']));
    lemma_at_concat(s, i, seq!['"'], esc_seq(v) + seq!['"']);
    lemma_at_char(s, i, seq!['"'], 0);
    assert(s[i] == '"');
    lemma_rt_chars(s, i + 1, v);
}

proof fn lemma_rt_two_digits(s: Seq<char>, i: int, v: int)
    requires
        has_at(s, i, ser_two_digits(v)),
        0 <= v < 100,
    ensures
        p_two_digits(s, i) == Some((v, i + 2)),
{
    lemma_at_char(s, i, ser_two_digits(v), 0);
    lemma_at_char(s, i, ser_two_digits(v), 1);
    lemma_digit_char(v / 10 % 10);
    lemma_digit_char(v % 10);
    lemma_two_digits_value(v);
}

proof fn lemma_rt_four_digits(s: Seq<char>, i: int, v: int)
    requires
        has_at(s, i, ser_four_digits(v)),
        0 <= v < 10000,
    ensures
        p_four_digits(s, i) == Some((v, i + 4)),
{
    lemma_at_char(s, i, ser_four_digits(v), 0);
    lemma_at_char(s, i, ser_four_digits(v), 1);
    lemma_at_char(s, i, ser_four_digits(v), 2);
    lemma_at_char(s, i, ser_four_digits(v), 3);
    lemma_digit_char(v / 1000 % 10);
    lemma_digit_char(v / 100 % 10);
    lemma_digit_char(v / 10 % 10);
    lemma_digit_char(v % 10);
    lemma_four_digits_value(v);
}

proof fn lemma_rt_date(s: Seq<char>, i: int, d: Date)
    requires
        has_at(s, i, ser_date(d)),
        d.is_valid(),
    ensures
        p_date(s, i) == Some((d, i + 12)),
{
    let q = seq!['"'];
    let dash = seq!['-'];
    let y4 = ser_four_digits(d.year as int);
    let m2 = ser_two_digits(d.month as int);
    let d2 = ser_two_digits(d.day as int);
    lemma_at_concat(s, i, q + y4 + dash + m2 + dash + d2, q);
    lemma_at_concat(s, i, q + y4 + dash + m2 + dash, d2);
    lemma_at_concat(s, i, q + y4 + dash + m2, dash);
    lemma_at_concat(s, i, q + y4 + dash, m2);
    lemma_at_concat(s, i, q + y4, dash);
    lemma_at_concat(s, i, q, y4);
    lemma_at_char(s, i, ser_date(d), 0);
    lemma_at_char(s, i, ser_date(d), 5);
    lemma_at_char(s, i, ser_date(d), 8);
    lemma_at_char(s, i, ser_date(d), 11);
    assert(ser_date(d)[0] == '"');
    assert(ser_date(d)[5] == '-');
    assert(ser_date(d)[8] == '-');
    assert(ser_date(d)[11] == '"');
    assert(s[i] == '"' && s[i + 5] == '-' && s[i + 8] == '-' && s[i + 11] == '"');
    lemma_rt_four_digits(s, i + 1, d.year as int);
    lemma_rt_two_digits(s, i + 6, d.month as int);
    lemma_rt_two_digits(s, i + 9, d.day as int);
    assert((Date { year: d.year as int as u16, month: d.month as int as u8, day: d.day as int as u8
    }) == d);
}

proof fn lemma_rt_deadline(s: Seq<char>, i: int, dl: Option<Date>)
    requires
        has_at(s, i, ser_deadline(dl)),
        dl matches Some(d) ==> d.is_valid(),
    ensures
        p_deadline(s, i) == Some((dl, i + ser_deadline(dl).len())),
{
    lemma_at_char(s, i, ser_deadline(dl), 0);
    match dl {
        None => {
            assert(s[i] == 'n');
        },
        Some(d) => {
            assert(ser_date(d)[0] == '"');
            assert(s[i] == '"');
            lemma_rt_date(s, i, d);
        },
    }
}

proof fn lemma_rt_progress(s: Seq<char>, i: int, u: int)
    requires
        has_at(s, i, ser_progress(u)),
        0 <= u <= PROGRESS_SCALE,
    ensures
        p_progress(s, i) == Some((u, i + 8)),
{
    lemma_at_char(s, i, ser_progress(u), 0);
    lemma_at_char(s, i, ser_progress(u), 1);
    lemma_at_char(s, i, ser_progress(u), 2);
    lemma_at_char(s, i, ser_progress(u), 3);
    lemma_at_char(s, i, ser_progress(u), 4);
    lemma_at_char(s, i, ser_progress(u), 5);
    lemma_at_char(s, i, ser_progress(u), 6);
    lemma_at_char(s, i, ser_progress(u), 7);
    lemma_digit_char(u / 1000000 % 10);
    lemma_digit_char(u / 100000 % 10);
    lemma_digit_char(u / 10000 % 10);
    lemma_digit_char(u / 1000 % 10);
    lemma_digit_char(u / 100 % 10);
    lemma_digit_char(u / 10 % 10);
    lemma_digit_char(u % 10);
    lemma_seven_digits_value(u);
}

#[verifier::rlimit(100)]
#[verifier::spinoff_prover]
proof fn lemma_rt_item(s: Seq<char>, i: int, iv: ItemView)
    requires
        has_at(s, i, ser_item(iv)),
        iv.wf(),
    ensures
        p_item(s, i) == Some((iv, i + ser_item(iv).len())),
        ser_item(iv).len() > 0,
{
    let a1 = lit_status();
    let a2 = ser_status(iv.status);
    let a3 = lit_desc();
    let a4 = ser_string(iv.desc);
    let a5 = lit_deadline();
    let a6 = ser_deadline(iv.deadline);
    let a7 = lit_progress();
    let a8 = ser_progress(iv.progress);
    lemma_at_concat(s, i, a1 + a2 + a3 + a4 + a5 + a6 + a7 + a8, seq!['}']);
    lemma_at_concat(s, i, a1 + a2 + a3 + a4 + a5 + a6 + a7, a8);
    lemma_at_concat(s, i, a1 + a2 + a3 + a4 + a5 + a6, a7);
    lemma_at_concat(s, i, a1 + a2 + a3 + a4 + a5, a6);
    lemma_at_concat(s, i, a1 + a2 + a3 + a4, a5);
    lemma_at_concat(s, i, a1 + a2 + a3, a4);
    lemma_at_concat(s, i, a1 + a2, a3);
    lemma_at_concat(s, i, a1, a2);
    let p1 = i + a1.len();
    let p2 = p1 + a2.len();
    let p3 = p2 + a3.len();
    let p4 = p3 + a4.len();
    let p5 = p4 + a5.len();
    let p6 = p5 + a6.len();
    let p7 = p6 + a7.len();
    let p8 = p7 + a8.len();
    lemma_rt_status(s, p1, iv.status);
    lemma_rt_string(s, p3, iv.desc);
    lemma_rt_deadline(s, p5, iv.deadline);
    lemma_rt_progress(s, p7, iv.progress);
}

#[verifier::rlimit(100)]
#[verifier::spinoff_prover]
proof fn lemma_rt_rest(s: Seq<char>, i: int, l: Seq<ItemView>)
    requires
        has_at(s, i, ser_rest(l)),
        items_wf(l),
    ensures
        p_rest(s, i) == Some((l, i + ser_rest(l).len())),
    decreases l.len(),
{
    lemma_at_char(s, i, ser_rest(l), 0);
    if l.len() == 0 {
        assert(s[i] == ']');
        assert(l =~= Seq::<ItemView>::empty());
    } else {
        assert(ser_rest(l) == seq![','] + ser_item(l[0]) + ser_rest(l.skip(1)));
        lemma_at_concat(s, i, seq![','] + ser_item(l[0]), ser_rest(l.skip(1)));
        lemma_at_concat(s, i, seq![','], ser_item(l[0]));
        assert(ser_rest(l)[0] == ',');
        assert(s[i] == ',');
        lemma_rt_item(s, i + 1, l[0]);
        let j = i + 1 + ser_item(l[0]).len();
        assert(forall|k: int| 0 <= k < l.skip(1).len() ==> l.skip(1)[k] == l[k + 1]);
        lemma_rt_rest(s, j, l.skip(1));
        assert(seq![l[0]] + l.skip(1) =~= l);
    }
}

#[verifier::rlimit(100)]
#[verifier::spinoff_prover]
proof fn lemma_rt_items(s: Seq<char>, i: int, l: Seq<ItemView>)
    requires
        has_at(s, i, ser_items(l)),
        items_wf(l),
    ensures
        p_items(s, i) == Some((l, i + ser_items(l).len())),
{
    lemma_at_char(s, i, ser_items(l), 0);
    if l.len() == 0 {
        assert(s[i] == ']');
        assert(l =~= Seq::<ItemView>::empty());
    } else {
        assert(ser_items(l) == ser_item(l[0]) + ser_rest(l.skip(1)));
        lemma_at_concat(s, i, ser_item(l[0]), ser_rest(l.skip(1)));
        lemma_rt_item(s, i, l[0]);
        assert(ser_item(l[0])[0] == '{');
        assert(s[i] == '{');
        let j = i + ser_item(l[0]).len();
        assert(forall|k: int| 0 <= k < l.skip(1).len() ==> l.skip(1)[k] == l[k + 1]);
        lemma_rt_rest(s, j, l.skip(1));
        assert(seq![l[0]] + l.skip(1) =~= l);
    }
}

/// LAW: the document round trip. For every well-formed task list, parsing
/// the serialized document yields exactly the original list; together with
/// the contracts of `Store::save` and `Store::load`, loading what was saved
/// reproduces the list, the empty list included.
#[verifier::rlimit(100)]
#[verifier::spinoff_prover]
pub proof fn lemma_document_round_trip(l: Seq<ItemView>)
    requires
        items_wf(l),
    ensures
        p_doc(ser_doc(l)) == Some(l),
{
    let s = ser_doc(l);
    assert(s.subrange(0, s.len() as int) =~= s);
    assert(has_at(s, 0, s));
    lemma_at_concat(s, 0, lit_header() + ser_items(l), seq!['}']);
    lemma_at_concat(s, 0, lit_header(), ser_items(l));
    lemma_rt_items(s, 10, l);
    let j: int = 10 + ser_items(l).len() as int;
    lemma_at_index(s, j, seq!['}']);
    assert(s[j] == '}');
}

} // verus!
