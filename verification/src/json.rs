//! The serialization adapter: renders a parsed document as JSON, with the
//! source schema's capitalized key names, and its model: the output record
//! each entry is turned into, from which every field can be read back.

use vstd::prelude::*;
use crate::types::{CcyNtry, DocModel, EntryModel, ListOne};

verus! {

/// One value of an output record: null, a boolean, a number or text.
pub enum JsonField {
    JNull,
    JBool(bool),
    JInt(i32),
    JStr(Seq<char>),
}

/// The output record of one entry: the six key/value pairs, in the source
/// schema's capitalization, absent optional fields carried as null.
pub open spec fn obj_of_entry(e: EntryModel) -> Seq<(Seq<char>, JsonField)> {
    seq![
        ("CtryNm"@, JsonField::JStr(e.ctry_nm)),
        ("CcyNm"@, JsonField::JStr(e.ccy_nm)),
        ("IsFund"@, JsonField::JBool(e.is_fund)),
        (
            "Ccy"@,
            match e.ccy {
                Some(s) => JsonField::JStr(s),
                None => JsonField::JNull,
            },
        ),
        (
            "CcyNbr"@,
            match e.ccy_nbr {
                Some(s) => JsonField::JStr(s),
                None => JsonField::JNull,
            },
        ),
        (
            "CcyMnrUnts"@,
            match e.ccy_mnr_unts {
                Some(n) => JsonField::JInt(n),
                None => JsonField::JNull,
            },
        ),
    ]
}

/// Reads a required text field back from an output record value.
pub open spec fn str_field(f: JsonField) -> Option<Seq<char>> {
    match f {
        JsonField::JStr(s) => Some(s),
        _ => None,
    }
}

/// Reads an optional text field back: null stands for an absent field.
pub open spec fn opt_str_field(f: JsonField) -> Option<Option<Seq<char>>> {
    match f {
        JsonField::JStr(s) => Some(Some(s)),
        JsonField::JNull => Some(None),
        _ => None,
    }
}

/// Reads an optional number field back: null stands for an absent field.
pub open spec fn opt_int_field(f: JsonField) -> Option<Option<i32>> {
    match f {
        JsonField::JInt(n) => Some(Some(n)),
        JsonField::JNull => Some(None),
        _ => None,
    }
}

/// Reads a whole entry back from an output record, if it has the six keys
/// with values of the right shapes.
pub open spec fn entry_of_obj(o: Seq<(Seq<char>, JsonField)>) -> Option<EntryModel> {
    if o.len() != 6 || o[0].0 != "CtryNm"@ || o[1].0 != "CcyNm"@ || o[2].0 != "IsFund"@
        || o[3].0 != "Ccy"@ || o[4].0 != "CcyNbr"@ || o[5].0 != "CcyMnrUnts"@ {
        None
    } else {
        match (str_field(o[0].1), str_field(o[1].1), o[2].1) {
            (Some(ct), Some(cn), JsonField::JBool(f)) => match (
                opt_str_field(o[3].1),
                opt_str_field(o[4].1),
                opt_int_field(o[5].1),
            ) {
                (Some(ccy), Some(ccy_nbr), Some(mnr)) => Some(
                    EntryModel {
                        ctry_nm: ct,
                        ccy_nm: cn,
                        is_fund: f,
                        ccy: ccy,
                        ccy_nbr: ccy_nbr,
                        ccy_mnr_unts: mnr,
                    },
                ),
                _ => None,
            },
            _ => None,
        }
    }
}

/// Law: turning an entry into its output record and reading the record
/// back yields the entry unchanged — serialization preserves every field's
/// value and its optionality exactly, with absent fields carried as null.
pub proof fn lemma_entry_round_trip(e: EntryModel)
    ensures
        entry_of_obj(obj_of_entry(e)) == Some(e),
{
}

/// Law: the same, entry by entry, over a whole parsed document.
pub proof fn lemma_doc_round_trip(d: DocModel)
    ensures
        forall|i: int|
            0 <= i < d.entries.len() ==> entry_of_obj(obj_of_entry(#[trigger] d.entries[i]))
                == Some(d.entries[i]),
{
}

/// How one character is escaped inside a JSON string.
pub open spec fn esc_char(c: char) -> Seq<char> {
    if c == '"' {
        "\\\""@
    } else if c == '\\' {
        "\\\\"@
    } else if c == '\n' {
        "\\n"@
    } else if c == '\r' {
        "\\r"@
    } else if c == '\t' {
        "\\t"@
    } else if c as u32 == 0 {
        "\\u0000"@
    } else if c as u32 == 1 {
        "\\u0001"@
    } else if c as u32 == 2 {
        "\\u0002"@
    } else if c as u32 == 3 {
        "\\u0003"@
    } else if c as u32 == 4 {
        "\\u0004"@
    } else if c as u32 == 5 {
        "\\u0005"@
    } else if c as u32 == 6 {
        "\\u0006"@
    } else if c as u32 == 7 {
        "\\u0007"@
    } else if c as u32 == 8 {
        "\\u0008"@
    } else if c as u32 == 11 {
        "\\u000b"@
    } else if c as u32 == 12 {
        "\\u000c"@
    } else if c as u32 == 14 {
        "\\u000e"@
    } else if c as u32 == 15 {
        "\\u000f"@
    } else if c as u32 == 16 {
        "\\u0010"@
    } else if c as u32 == 17 {
        "\\u0011"@
    } else if c as u32 == 18 {
        "\\u0012"@
    } else if c as u32 == 19 {
        "\\u0013"@
    } else if c as u32 == 20 {
        "\\u0014"@
    } else if c as u32 == 21 {
        "\\u0015"@
    } else if c as u32 == 22 {
        "\\u0016"@
    } else if c as u32 == 23 {
        "\\u0017"@
    } else if c as u32 == 24 {
        "\\u0018"@
    } else if c as u32 == 25 {
        "\\u0019"@
    } else if c as u32 == 26 {
        "\\u001a"@
    } else if c as u32 == 27 {
        "\\u001b"@
    } else if c as u32 == 28 {
        "\\u001c"@
    } else if c as u32 == 29 {
        "\\u001d"@
    } else if c as u32 == 30 {
        "\\u001e"@
    } else if c as u32 == 31 {
        "\\u001f"@
    } else {
        seq![c]
    }
}

/// A whole string's characters, escaped one by one.
pub open spec fn json_escaped(s: Seq<char>) -> Seq<char>
    decreases s.len(),
{
    if s.len() == 0 {
        Seq::empty()
    } else {
        json_escaped(s.drop_last()) + esc_char(s.last())
    }
}

/// A JSON string: the escaped text between quotes.
pub open spec fn json_string(s: Seq<char>) -> Seq<char> {
    seq!['"'] + json_escaped(s) + seq!['"']
}

/// The character of a decimal digit.
pub open spec fn dec_digit(d: int) -> char {
    if d == 0 {
        '0'
    } else if d == 1 {
        '1'
    } else if d == 2 {
        '2'
    } else if d == 3 {
        '3'
    } else if d == 4 {
        '4'
    } else if d == 5 {
        '5'
    } else if d == 6 {
        '6'
    } else if d == 7 {
        '7'
    } else if d == 8 {
        '8'
    } else {
        '9'
    }
}

/// Decimal text of a non-negative number, most significant digit first.
pub open spec fn u32_dec(n: int) -> Seq<char>
    decreases n,
{
    if n < 10 {
        seq![dec_digit(n)]
    } else {
        u32_dec(n / 10).push(dec_digit(n % 10))
    }
}

/// Decimal text of a number, a minus sign first where it is negative.
pub open spec fn i32_dec(n: int) -> Seq<char> {
    if n < 0 {
        seq!['-'] + u32_dec(-n)
    } else {
        u32_dec(n)
    }
}

/// How one output record value is rendered.
pub open spec fn render_field(f: JsonField) -> Seq<char> {
    match f {
        JsonField::JNull => "null"@,
        JsonField::JBool(b) => if b {
            "true"@
        } else {
            "false"@
        },
        JsonField::JInt(n) => i32_dec(n as int),
        JsonField::JStr(s) => json_string(s),
    }
}

/// How one key/value pair of an output record is rendered.
pub open spec fn render_pair(p: (Seq<char>, JsonField)) -> Seq<char> {
    seq!['"'] + p.0 + seq!['"', ':'] + render_field(p.1)
}

/// The JSON text of one entry: its output record's six pairs rendered in
/// order between braces.
pub open spec fn json_of_entry(e: EntryModel) -> Seq<char> {
    let o = obj_of_entry(e);
    seq!['{'] + render_pair(o[0]) + seq![','] + render_pair(o[1]) + seq![','] + render_pair(o[2])
        + seq![','] + render_pair(o[3]) + seq![','] + render_pair(o[4]) + seq![','] + render_pair(
        o[5],
    ) + seq!['}']
}

/// The JSON text of a sequence of entries, comma separated.
pub open spec fn json_of_entries(es: Seq<EntryModel>) -> Seq<char>
    decreases es.len(),
{
    if es.len() == 0 {
        Seq::empty()
    } else if es.len() == 1 {
        json_of_entry(es[0])
    } else {
        json_of_entries(es.drop_last()) + seq![','] + json_of_entry(es.last())
    }
}

/// The JSON text of a whole parsed document: the array of its entries.
pub open spec fn json_of_doc(d: DocModel) -> Seq<char> {
    seq!['['] + json_of_entries(d.entries) + seq![']']
}

/// The escape text of a control character the shorthand escapes do not
/// cover.
fn ctl_escape(c: char) -> (r: &'static str)
    requires
        (c as u32) < 32,
        c != '\n' && c != '\r' && c != '\t',
    ensures
        r@ == esc_char(c),
{
    let u = c as u32;
    if u == 0 {
        "\\u0000"
    } else if u == 1 {
        "\\u0001"
    } else if u == 2 {
        "\\u0002"
    } else if u == 3 {
        "\\u0003"
    } else if u == 4 {
        "\\u0004"
    } else if u == 5 {
        "\\u0005"
    } else if u == 6 {
        "\\u0006"
    } else if u == 7 {
        "\\u0007"
    } else if u == 8 {
        "\\u0008"
    } else if u == 11 {
        "\\u000b"
    } else if u == 12 {
        "\\u000c"
    } else if u == 14 {
        "\\u000e"
    } else if u == 15 {
        "\\u000f"
    } else if u == 16 {
        "\\u0010"
    } else if u == 17 {
        "\\u0011"
    } else if u == 18 {
        "\\u0012"
    } else if u == 19 {
        "\\u0013"
    } else if u == 20 {
        "\\u0014"
    } else if u == 21 {
        "\\u0015"
    } else if u == 22 {
        "\\u0016"
    } else if u == 23 {
        "\\u0017"
    } else if u == 24 {
        "\\u0018"
    } else if u == 25 {
        "\\u0019"
    } else if u == 26 {
        "\\u001a"
    } else if u == 27 {
        "\\u001b"
    } else if u == 28 {
        "\\u001c"
    } else if u == 29 {
        "\\u001d"
    } else if u == 30 {
        "\\u001e"
    } else {
        "\\u001f"
    }
}

/// Appends one string's characters, escaped, to the output.
fn append_escaped(out: &mut String, s: &str)
    ensures
        final(out)@ == old(out)@ + json_escaped(s@),
{
    let n = s.unicode_len();
    let mut i: usize = 0;
    while i < n
        invariant
            n == s@.len(),
            i <= n,
            out@ == old(out)@ + json_escaped(s@.subrange(0, i as int)),
        decreases n - i,
    {
        let c = s.get_char(i);
        proof {
            assert(s@.subrange(0, i + 1 as int).drop_last() =~= s@.subrange(0, i as int));
            assert(s@.subrange(0, i + 1 as int).last() == s@[i as int]);
        }
        if c == '"' {
            out.append("\\\"");
        } else if c == '\\' {
            out.append("\\\\");
        } else if c == '\n' {
            out.append("\\n");
        } else if c == '\r' {
            out.append("\\r");
        } else if c == '\t' {
            out.append("\\t");
        } else if (c as u32) < 32 {
            out.append(ctl_escape(c));
        } else {
            let piece = s.substring_char(i, i + 1);
            proof {
                assert(piece@ =~= seq![s@[i as int]]);
            }
            out.append(piece);
        }
        i += 1;
    }
    proof {
        assert(s@.subrange(0, n as int) =~= s@);
    }
}

/// Appends a JSON string — quote, escaped text, quote — to the output.
fn append_json_string(out: &mut String, s: &str)
    ensures
        final(out)@ == old(out)@ + json_string(s@),
{
    proof {
        reveal_strlit("\"");
        assert("\""@ =~= seq!['"']);
    }
    out.append("\"");
    append_escaped(out, s);
    out.append("\"");
    proof {
        assert(final(out)@ =~= old(out)@ + json_string(s@));
    }
}

/// The text of one decimal digit.
fn digit_str(d: u32) -> (r: &'static str)
    requires
        d < 10,
    ensures
        r@ == seq![dec_digit(d as int)],
{
    match d {
        0 => {
            proof {
                reveal_strlit("0");
                assert("0"@ =~= seq![dec_digit(0)]);
            }
            "0"
        },
        1 => {
            proof {
                reveal_strlit("1");
                assert("1"@ =~= seq![dec_digit(1)]);
            }
            "1"
        },
        2 => {
            proof {
                reveal_strlit("2");
                assert("2"@ =~= seq![dec_digit(2)]);
            }
            "2"
        },
        3 => {
            proof {
                reveal_strlit("3");
                assert("3"@ =~= seq![dec_digit(3)]);
            }
            "3"
        },
        4 => {
            proof {
                reveal_strlit("4");
                assert("4"@ =~= seq![dec_digit(4)]);
            }
            "4"
        },
        5 => {
            proof {
                reveal_strlit("5");
                assert("5"@ =~= seq![dec_digit(5)]);
            }
            "5"
        },
        6 => {
            proof {
                reveal_strlit("6");
                assert("6"@ =~= seq![dec_digit(6)]);
            }
            "6"
        },
        7 => {
            proof {
                reveal_strlit("7");
                assert("7"@ =~= seq![dec_digit(7)]);
            }
            "7"
        },
        8 => {
            proof {
                reveal_strlit("8");
                assert("8"@ =~= seq![dec_digit(8)]);
            }
            "8"
        },
        _ => {
            proof {
                reveal_strlit("9");
                assert("9"@ =~= seq![dec_digit(9)]);
            }
            "9"
        },
    }
}

/// Appends the decimal text of a non-negative number to the output.
fn append_u32_dec(out: &mut String, n: u32)
    ensures
        final(out)@ == old(out)@ + u32_dec(n as int),
    decreases n,
{
    if n < 10 {
        out.append(digit_str(n));
    } else {
        append_u32_dec(out, n / 10);
        out.append(digit_str(n % 10));
        proof {
            assert(final(out)@ =~= old(out)@ + u32_dec(n as int));
        }
    }
}

/// Appends the decimal text of a number to the output.
fn append_i32(out: &mut String, n: i32)
    ensures
        final(out)@ == old(out)@ + i32_dec(n as int),
{
    if n < 0 {
        proof {
            reveal_strlit("-");
            assert("-"@ =~= seq!['-']);
        }
        out.append("-");
        let m: u32 = (-(n as i64)) as u32;
        proof {
            assert(m as int == -(n as int));
        }
        append_u32_dec(out, m);
        proof {
            assert(final(out)@ =~= old(out)@ + i32_dec(n as int));
        }
    } else {
        append_u32_dec(out, n as u32);
    }
}

/// Renders one entry as a JSON object with the source schema's key names,
/// absent optional fields rendered as null.
#[verifier::rlimit(100)]
pub fn entry_to_json(e: &CcyNtry) -> (r: String)
    ensures
        r@ == json_of_entry(e@),
{
    proof {
        reveal_strlit("{\"CtryNm\":");
        reveal_strlit("CtryNm");
        reveal_strlit(",\"CcyNm\":");
        reveal_strlit("CcyNm");
        reveal_strlit(",\"IsFund\":");
        reveal_strlit("IsFund");
        reveal_strlit(",\"Ccy\":");
        reveal_strlit("Ccy");
        reveal_strlit(",\"CcyNbr\":");
        reveal_strlit("CcyNbr");
        reveal_strlit(",\"CcyMnrUnts\":");
        reveal_strlit("CcyMnrUnts");
        reveal_strlit("true");
        reveal_strlit("false");
        reveal_strlit("null");
        reveal_strlit("}");
        assert("{\"CtryNm\":"@ =~= seq!['{'] + seq!['"'] + "CtryNm"@ + seq!['"', ':']);
        assert(",\"CcyNm\":"@ =~= seq![','] + seq!['"'] + "CcyNm"@ + seq!['"', ':']);
        assert(",\"IsFund\":"@ =~= seq![','] + seq!['"'] + "IsFund"@ + seq!['"', ':']);
        assert(",\"Ccy\":"@ =~= seq![','] + seq!['"'] + "Ccy"@ + seq!['"', ':']);
        assert(",\"CcyNbr\":"@ =~= seq![','] + seq!['"'] + "CcyNbr"@ + seq!['"', ':']);
        assert(",\"CcyMnrUnts\":"@ =~= seq![','] + seq!['"'] + "CcyMnrUnts"@ + seq!['"', ':']);
        assert("}"@ =~= seq!['}']);
    }
    let mut out = String::from_str("{\"CtryNm\":");
    append_json_string(&mut out, e.ctry_nm());
    out.append(",\"CcyNm\":");
    append_json_string(&mut out, e.ccy_nm());
    out.append(",\"IsFund\":");
    if e.is_fund() {
        out.append("true");
    } else {
        out.append("false");
    }
    out.append(",\"Ccy\":");
    match e.ccy() {
        Some(s) => append_json_string(&mut out, s),
        None => out.append("null"),
    }
    out.append(",\"CcyNbr\":");
    match e.ccy_nbr() {
        Some(s) => append_json_string(&mut out, s),
        None => out.append("null"),
    }
    out.append(",\"CcyMnrUnts\":");
    match e.ccy_mnr_unts() {
        Some(v) => append_i32(&mut out, v),
        None => out.append("null"),
    }
    out.append("}");
    proof {
        assert(out@ =~= json_of_entry(e@));
    }
    out
}

/// Renders a whole parsed document as a JSON array of its entries.
pub fn list_one_to_json(l: &ListOne) -> (r: String)
    ensures
        r@ == json_of_doc(l@),
{
    proof {
        reveal_strlit("[");
        reveal_strlit(",");
        reveal_strlit("]");
        assert("["@ =~= seq!['[']);
        assert(","@ =~= seq![',']);
        assert("]"@ =~= seq![']']);
    }
    let mut out = String::from_str("[");
    let entries = &l.entries;
    let n = entries.len();
    let ghost es = l@.entries;
    let mut i: usize = 0;
    while i < n
        invariant
            n == entries@.len(),
            entries.deep_view() == es,
            i <= n,
            out@ == seq!['['] + json_of_entries(es.subrange(0, i as int)),
            "["@ == seq!['['],
            ","@ == seq![','],
        decreases n - i,
    {
        if i > 0 {
            out.append(",");
        }
        let s = entry_to_json(&entries[i]);
        out.append(s.as_str());
        proof {
            assert(entries@[i as int].deep_view() == es[i as int]);
            let pre = es.subrange(0, i as int);
            let post = es.subrange(0, i + 1 as int);
            assert(post.drop_last() =~= pre);
            assert(post.last() == es[i as int]);
            if i == 0 {
                assert(out@ =~= seq!['['] + json_of_entries(post));
            } else {
                assert(out@ =~= seq!['['] + json_of_entries(post));
            }
        }
        i += 1;
    }
    out.append("]");
    proof {
        assert(es.subrange(0, n as int) =~= es);
        assert(out@ =~= json_of_doc(l@));
    }
    out
}

} // verus!
