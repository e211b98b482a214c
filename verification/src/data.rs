//! The data tree that a validator takes as its argument, and its text.
use crate::base16::{encode, hex_text};
use crate::text::{
    decimal_text, int_text, joined, lemma_joined_step, push_decimal, push_int, repeat,
    repeat_text,
};
use vstd::prelude::*;
use vstd::string::*;

verus! {

/// A value of the contract language: an integer, bytes, a list, a list of
/// pairs, or a tagged constructor with its fields.
#[derive(Debug, PartialEq, Eq)]
pub enum Data {
    Constr { tag: u64, fields: Vec<Data> },
    Mapping(Vec<(Data, Data)>),
    Array(Vec<Data>),
    Int(i128),
    BigUInt(Vec<u8>),
    BigNInt(Vec<u8>),
    BoundedBytes(Vec<u8>),
}

/// A leaf, or a constructor, map or array with nothing in it.
pub open spec fn simple(data: Data) -> bool {
    match data {
        Data::Constr { tag, fields } => fields@.len() == 0,
        Data::Mapping(pairs) => pairs@.len() == 0,
        Data::Array(items) => items@.len() == 0,
        Data::Int(_) => true,
        Data::BigUInt(_) => true,
        Data::BigNInt(_) => true,
        Data::BoundedBytes(_) => true,
    }
}

/// Whether a data tree stands on one line: it is simple, or a constructor
/// with one simple field, or a map with one pair of simple values.
pub open spec fn compact(data: Data) -> bool {
    ||| simple(data)
    ||| data matches Data::Constr { tag, fields } && fields@.len() == 1 && simple(fields@[0])
    ||| data matches Data::Mapping(pairs) && pairs@.len() == 1 && simple(pairs@[0].0) && simple(
        pairs@[0].1,
    )
}

/// The text of a data tree whose own lines start after `pad`.
///
/// What is empty stands on one line, and so does a constructor with one
/// simple field and a map with one pair of simple values. Anything else,
/// an array with items too, takes one line for each child, two spaces
/// further right than its own.
pub open spec fn padded_text(data: Data, pad: Seq<char>) -> Seq<char>
    decreases data,
{
    let inner = pad + "  "@;
    match data {
        Data::Constr { tag, fields } => {
            if fields@.len() == 0 {
                "Constr("@ + decimal_text(tag as nat) + ", [])"@
            } else if fields@.len() == 1 && simple(fields@[0]) {
                "Constr("@ + decimal_text(tag as nat) + ", ["@ + padded_text(
                    fields@[0],
                    Seq::empty(),
                ) + "])"@
            } else {
                "Constr("@ + decimal_text(tag as nat) + ", [\n"@ + joined(
                    item_texts(fields@, inner),
                    ",\n"@,
                ) + "\n"@ + pad + "])"@
            }
        },
        Data::Mapping(pairs) => {
            if pairs@.len() == 0 {
                "Map({})"@
            } else if pairs@.len() == 1 && simple(pairs@[0].0) && simple(pairs@[0].1) {
                "Map({ "@ + padded_text(pairs@[0].0, Seq::empty()) + " => "@ + padded_text(
                    pairs@[0].1,
                    Seq::empty(),
                ) + " })"@
            } else {
                "Map({\n"@ + joined(pair_texts(pairs@, inner), ",\n"@) + "\n"@ + pad + "})"@
            }
        },
        Data::Array(items) => {
            if items@.len() == 0 {
                "[]"@
            } else {
                "[\n"@ + joined(item_texts(items@, inner), ",\n"@) + "\n"@ + pad + "]"@
            }
        },
        Data::Int(n) => "Int("@ + int_text(n as int) + ")"@,
        Data::BigUInt(bytes) => "BigInt(+0x"@ + hex_text(bytes@) + ")"@,
        Data::BigNInt(bytes) => "BigUInt(-0x"@ + hex_text(bytes@) + ")"@,
        Data::BoundedBytes(bytes) => "Bytes(0x"@ + hex_text(bytes@) + ")"@,
    }
}

/// Each item's text after `pad`, its own lines starting after `pad` too.
pub open spec fn item_texts(items: Seq<Data>, pad: Seq<char>) -> Seq<Seq<char>>
    decreases items,
{
    Seq::new(
        items.len(),
        |i: int|
            if 0 <= i < items.len() {
                pad + padded_text(items[i], pad)
            } else {
                Seq::empty()
            },
    )
}

/// Each pair's text: the key after `pad`, an arrow, and on the next line the
/// value after `pad`.
pub open spec fn pair_texts(pairs: Seq<(Data, Data)>, pad: Seq<char>) -> Seq<
    Seq<char>,
>
    decreases pairs,
{
    Seq::new(
        pairs.len(),
        |i: int|
            if 0 <= i < pairs.len() {
                pad + padded_text(pairs[i].0, pad) + " =>\n"@ + pad + padded_text(pairs[i].1, pad)
            } else {
                Seq::empty()
            },
    )
}

/// The text of a data tree that stands `depth` levels deep: its own lines
/// start after two spaces for each level.
pub open spec fn data_text(data: Data, depth: nat) -> Seq<char> {
    padded_text(data, repeat_text("  "@, depth))
}

/// Whether a data tree is a leaf or holds nothing.
pub fn is_simple(data: &Data) -> (b: bool)
    ensures
        b == simple(*data),
{
    match data {
        Data::Constr { tag, fields } => fields.len() == 0,
        Data::Mapping(pairs) => pairs.len() == 0,
        Data::Array(items) => items.len() == 0,
        Data::Int(_) => true,
        Data::BigUInt(_) => true,
        Data::BigNInt(_) => true,
        Data::BoundedBytes(_) => true,
    }
}

/// Appends the items' texts, each after `pad`, with `sep` between two of them.
fn push_items(out: &mut String, items: &Vec<Data>, pad: &str, sep: &str)
    ensures
        final(out)@ == old(out)@ + joined(item_texts(items@, pad@), sep@),
    decreases items,
{
    let ghost parts = item_texts(items@, pad@);
    let mut i: usize = 0;
    assert(parts.take(0) =~= Seq::empty());
    assert(out@ + Seq::<char>::empty() =~= out@);
    while i < items.len()
        invariant
            i <= items.len(),
            parts == item_texts(items@, pad@),
            out@ == old(out)@ + joined(parts.take(i as int), sep@),
        decreases items.len() - i,
    {
        if i > 0 {
            out.append(sep);
        }
        out.append(pad);
        let item = format_padded(&items[i], pad);
        out.append(item.as_str());
        proof {
            lemma_joined_step(parts, sep@, i as int);
            assert(out@ =~= old(out)@ + joined(parts.take(i + 1), sep@));
        }
        i += 1;
    }
    assert(parts.take(items.len() as int) =~= parts);
}

/// Appends the pairs' texts, each key and each value after `pad`, with `sep`
/// between two pairs.
fn push_pairs(out: &mut String, pairs: &Vec<(Data, Data)>, pad: &str, sep: &str)
    ensures
        final(out)@ == old(out)@ + joined(pair_texts(pairs@, pad@), sep@),
    decreases pairs,
{
    let ghost parts = pair_texts(pairs@, pad@);
    let mut i: usize = 0;
    assert(parts.take(0) =~= Seq::empty());
    assert(out@ + Seq::<char>::empty() =~= out@);
    while i < pairs.len()
        invariant
            i <= pairs.len(),
            parts == pair_texts(pairs@, pad@),
            out@ == old(out)@ + joined(parts.take(i as int), sep@),
        decreases pairs.len() - i,
    {
        if i > 0 {
            out.append(sep);
        }
        out.append(pad);
        let key = format_padded(&pairs[i].0, pad);
        out.append(key.as_str());
        out.append(" =>\n");
        out.append(pad);
        let value = format_padded(&pairs[i].1, pad);
        out.append(value.as_str());
        proof {
            lemma_joined_step(parts, sep@, i as int);
            assert(out@ =~= old(out)@ + joined(parts.take(i + 1), sep@));
        }
        i += 1;
    }
    assert(parts.take(pairs.len() as int) =~= parts);
}

/// The text of a data tree whose own lines start after `pad`.
fn format_padded(data: &Data, pad: &str) -> (out: String)
    ensures
        out@ == padded_text(*data, pad@),
    decreases data,
{
    proof {
        reveal_strlit("");
        assert(""@ =~= Seq::<char>::empty());
    }
    let mut inner = String::from_str(pad);
    inner.append("  ");
    match data {
        Data::Constr { tag, fields } => {
            let mut out = String::from_str("Constr(");
            push_decimal(&mut out, *tag as u128);
            if fields.len() == 0 {
                out.append(", [])");
            } else if fields.len() == 1 && is_simple(&fields[0]) {
                out.append(", [");
                let field = format_padded(&fields[0], "");
                out.append(field.as_str());
                out.append("])");
            } else {
                out.append(", [\n");
                push_items(&mut out, fields, inner.as_str(), ",\n");
                out.append("\n");
                out.append(pad);
                out.append("])");
            }
            out
        },
        Data::Mapping(pairs) => {
            if pairs.len() == 0 {
                String::from_str("Map({})")
            } else if pairs.len() == 1 && is_simple(&pairs[0].0) && is_simple(&pairs[0].1) {
                let mut out = String::from_str("Map({ ");
                let key = format_padded(&pairs[0].0, "");
                out.append(key.as_str());
                out.append(" => ");
                let value = format_padded(&pairs[0].1, "");
                out.append(value.as_str());
                out.append(" })");
                out
            } else {
                let mut out = String::from_str("Map({\n");
                push_pairs(&mut out, pairs, inner.as_str(), ",\n");
                out.append("\n");
                out.append(pad);
                out.append("})");
                out
            }
        },
        Data::Array(items) => {
            if items.len() == 0 {
                String::from_str("[]")
            } else {
                let mut out = String::from_str("[\n");
                push_items(&mut out, items, inner.as_str(), ",\n");
                out.append("\n");
                out.append(pad);
                out.append("]");
                out
            }
        },
        Data::Int(n) => {
            let mut out = String::from_str("Int(");
            push_int(&mut out, *n);
            out.append(")");
            out
        },
        Data::BigUInt(bytes) => {
            let mut out = String::from_str("BigInt(+0x");
            out.append(encode(bytes.as_slice()).as_str());
            out.append(")");
            out
        },
        Data::BigNInt(bytes) => {
            let mut out = String::from_str("BigUInt(-0x");
            out.append(encode(bytes.as_slice()).as_str());
            out.append(")");
            out
        },
        Data::BoundedBytes(bytes) => {
            let mut out = String::from_str("Bytes(0x");
            out.append(encode(bytes.as_slice()).as_str());
            out.append(")");
            out
        },
    }
}

/// The text of a data tree that stands `indent` levels deep.
pub fn format_plutus_data(data: &Data, indent: usize) -> (out: String)
    ensures
        out@ == data_text(*data, indent as nat),
{
    let pad = repeat("  ", indent);
    format_padded(data, pad.as_str())
}

/// Whether a text stands on one line: it holds no line feed.
pub open spec fn one_line(text: Seq<char>) -> bool {
    forall|i: int| 0 <= i < text.len() ==> text[i] != '\n'
}

/// Two texts of one line each make one line together.
proof fn lemma_one_line_add(a: Seq<char>, b: Seq<char>)
    requires
        one_line(a),
        one_line(b),
    ensures
        one_line(a + b),
{
    assert forall|i: int| 0 <= i < (a + b).len() implies (a + b)[i] != '\n' by {
        if i < a.len() {
            assert((a + b)[i] == a[i]);
        } else {
            assert((a + b)[i] == b[i - a.len()]);
        }
    }
}

/// A number in decimal stands on one line.
proof fn lemma_decimal_one_line(n: nat)
    ensures
        one_line(decimal_text(n)),
    decreases n,
{
    if n >= 10 {
        lemma_decimal_one_line(n / 10);
    }
}

/// An integer in decimal stands on one line.
proof fn lemma_int_one_line(n: int)
    ensures
        one_line(int_text(n)),
{
    if n < 0 {
        lemma_decimal_one_line((-n) as nat);
        lemma_one_line_add(seq!['-'], decimal_text((-n) as nat));
    } else {
        lemma_decimal_one_line(n as nat);
    }
}

/// Bytes in hexadecimal stand on one line.
proof fn lemma_hex_one_line(bytes: Seq<u8>)
    ensures
        one_line(hex_text(bytes)),
{
}

/// The text of a leaf stands on one line.
proof fn lemma_leaf_one_line(data: Data, pad: Seq<char>)
    requires
        data is Int || data is BigUInt || data is BigNInt || data is BoundedBytes,
    ensures
        one_line(padded_text(data, pad)),
{
    reveal_strlit("Int(");
    reveal_strlit(")");
    reveal_strlit("BigInt(+0x");
    reveal_strlit("BigUInt(-0x");
    reveal_strlit("Bytes(0x");
    match data {
        Data::Int(n) => {
            lemma_int_one_line(n as int);
            lemma_one_line_add("Int("@, int_text(n as int));
            lemma_one_line_add("Int("@ + int_text(n as int), ")"@);
        },
        Data::BigUInt(bytes) => {
            lemma_hex_one_line(bytes@);
            lemma_one_line_add("BigInt(+0x"@, hex_text(bytes@));
            lemma_one_line_add("BigInt(+0x"@ + hex_text(bytes@), ")"@);
        },
        Data::BigNInt(bytes) => {
            lemma_hex_one_line(bytes@);
            lemma_one_line_add("BigUInt(-0x"@, hex_text(bytes@));
            lemma_one_line_add("BigUInt(-0x"@ + hex_text(bytes@), ")"@);
        },
        Data::BoundedBytes(bytes) => {
            lemma_hex_one_line(bytes@);
            lemma_one_line_add("Bytes(0x"@, hex_text(bytes@));
            lemma_one_line_add("Bytes(0x"@ + hex_text(bytes@), ")"@);
        },
        _ => {},
    }
}

/// What holds nothing shows as the sign for its kind: a constructor as its
/// tag and an empty list, a map as empty braces, an array as empty brackets.
pub proof fn lemma_empty_shows_its_sign(data: Data, pad: Seq<char>)
    requires
        simple(data),
    ensures
        data matches Data::Constr { tag, fields } ==> padded_text(data, pad) == "Constr("@
            + decimal_text(tag as nat) + ", [])"@,
        data is Mapping ==> padded_text(data, pad) == "Map({})"@,
        data is Array ==> padded_text(data, pad) == "[]"@,
{
}

/// The text of a leaf, and of what holds nothing, stands on one line.
pub proof fn lemma_simple_on_one_line(data: Data, pad: Seq<char>)
    requires
        simple(data),
    ensures
        one_line(padded_text(data, pad)),
{
    reveal_strlit("Constr(");
    reveal_strlit(", [])");
    reveal_strlit("Map({})");
    reveal_strlit("[]");
    match data {
        Data::Constr { tag, fields } => {
            lemma_decimal_one_line(tag as nat);
            lemma_one_line_add("Constr("@, decimal_text(tag as nat));
            lemma_one_line_add("Constr("@ + decimal_text(tag as nat), ", [])"@);
        },
        Data::Mapping(pairs) => {},
        Data::Array(items) => {},
        _ => {
            lemma_leaf_one_line(data, pad);
        },
    }
}

/// A constructor with one field that is a leaf or holds nothing stands on one
/// line.
pub proof fn lemma_single_simple_field_on_one_line(data: Data, pad: Seq<char>)
    requires
        data matches Data::Constr { tag, fields } && fields@.len() == 1 && simple(fields@[0]),
    ensures
        one_line(padded_text(data, pad)),
{
    reveal_strlit("Constr(");
    reveal_strlit(", [");
    reveal_strlit("])");
    match data {
        Data::Constr { tag, fields } => {
            let field = padded_text(fields@[0], Seq::empty());
            lemma_simple_on_one_line(fields@[0], Seq::empty());
            lemma_decimal_one_line(tag as nat);
            lemma_one_line_add("Constr("@, decimal_text(tag as nat));
            lemma_one_line_add("Constr("@ + decimal_text(tag as nat), ", ["@);
            lemma_one_line_add("Constr("@ + decimal_text(tag as nat) + ", ["@, field);
            lemma_one_line_add("Constr("@ + decimal_text(tag as nat) + ", ["@ + field, "])"@);
        },
        _ => {},
    }
}

/// A constructor with two fields or more, or with one field that holds
/// something, takes a line for each field, between a first line that opens the
/// list and a last line that closes it. At depth `depth` each field stands one
/// level deeper, after two spaces more; the last line stands at `depth`.
pub proof fn lemma_fields_on_lines_of_their_own(data: Data, depth: nat)
    requires
        data matches Data::Constr { tag, fields } && (fields@.len() >= 2 || (fields@.len() == 1
            && !simple(fields@[0]))),
    ensures
        data matches Data::Constr { tag, fields } && data_text(data, depth) == "Constr("@
            + decimal_text(tag as nat) + ", [\n"@ + joined(
            Seq::new(
                fields@.len(),
                |i: int| repeat_text("  "@, depth + 1) + data_text(fields@[i], depth + 1),
            ),
            ",\n"@,
        ) + "\n"@ + repeat_text("  "@, depth) + "])"@,
        !one_line(data_text(data, depth)),
{
    match data {
        Data::Constr { tag, fields } => {
            let pad = repeat_text("  "@, depth);
            let inner = repeat_text("  "@, depth + 1);
            assert(inner == pad + "  "@);
            let lines = Seq::new(
                fields@.len(),
                |i: int| repeat_text("  "@, depth + 1) + data_text(fields@[i], depth + 1),
            );
            assert(item_texts(fields@, inner) =~= lines);
            reveal_strlit(", [\n");
            let head = "Constr("@ + decimal_text(tag as nat);
            let tail = joined(lines, ",\n"@) + "\n"@ + pad + "])"@;
            let text = data_text(data, depth);
            assert(text =~= head + ", [\n"@ + (joined(lines, ",\n"@) + "\n"@ + pad + "])"@));
            let at = head.len() as int + 3;
            assert(text[at] == ", [\n"@[3]);
        },
        _ => {},
    }
}

/// A map with one pair of simple values stands on one line.
pub proof fn lemma_single_simple_pair_on_one_line(data: Data, pad: Seq<char>)
    requires
        data matches Data::Mapping(pairs) && pairs@.len() == 1 && simple(pairs@[0].0) && simple(
            pairs@[0].1,
        ),
    ensures
        one_line(padded_text(data, pad)),
{
    reveal_strlit("Map({ ");
    reveal_strlit(" => ");
    reveal_strlit(" })");
    match data {
        Data::Mapping(pairs) => {
            let key = padded_text(pairs@[0].0, Seq::empty());
            let value = padded_text(pairs@[0].1, Seq::empty());
            lemma_simple_on_one_line(pairs@[0].0, Seq::empty());
            lemma_simple_on_one_line(pairs@[0].1, Seq::empty());
            lemma_one_line_add("Map({ "@, key);
            lemma_one_line_add("Map({ "@ + key, " => "@);
            lemma_one_line_add("Map({ "@ + key + " => "@, value);
            lemma_one_line_add("Map({ "@ + key + " => "@ + value, " })"@);
        },
        _ => {},
    }
}

/// A text that holds a line feed at a place does not stand on one line.
proof fn lemma_line_feed_inside(head: Seq<char>, mark: Seq<char>, tail: Seq<char>, at: int)
    requires
        0 <= at < mark.len(),
        mark[at] == '\n',
    ensures
        !one_line(head + mark + tail),
{
    let text = head + mark + tail;
    assert(text[head.len() + at] == mark[at]);
}

/// The text of a data tree stands on one line exactly when the tree is
/// simple, or a constructor with one simple field, or a map with one pair of
/// simple values. Whatever else holds something takes several lines.
pub proof fn lemma_one_line_iff_compact(data: Data, pad: Seq<char>)
    ensures
        one_line(padded_text(data, pad)) <==> compact(data),
{
    let inner = pad + "  "@;
    if simple(data) {
        lemma_simple_on_one_line(data, pad);
    } else {
        match data {
            Data::Constr { tag, fields } => {
                if fields@.len() == 1 && simple(fields@[0]) {
                    lemma_single_simple_field_on_one_line(data, pad);
                } else {
                    reveal_strlit(", [\n");
                    lemma_line_feed_inside(
                        "Constr("@ + decimal_text(tag as nat),
                        ", [\n"@,
                        joined(item_texts(fields@, inner), ",\n"@) + "\n"@ + pad + "])"@,
                        3,
                    );
                    assert(padded_text(data, pad) =~= "Constr("@ + decimal_text(tag as nat)
                        + ", [\n"@ + (joined(item_texts(fields@, inner), ",\n"@) + "\n"@ + pad
                        + "])"@));
                }
            },
            Data::Mapping(pairs) => {
                if pairs@.len() == 1 && simple(pairs@[0].0) && simple(pairs@[0].1) {
                    lemma_single_simple_pair_on_one_line(data, pad);
                } else {
                    reveal_strlit("Map({\n");
                    lemma_line_feed_inside(
                        Seq::empty(),
                        "Map({\n"@,
                        joined(pair_texts(pairs@, inner), ",\n"@) + "\n"@ + pad + "})"@,
                        5,
                    );
                    assert(padded_text(data, pad) =~= Seq::<char>::empty() + "Map({\n"@ + (joined(
                        pair_texts(pairs@, inner),
                        ",\n"@,
                    ) + "\n"@ + pad + "})"@));
                }
            },
            Data::Array(items) => {
                reveal_strlit("[\n");
                lemma_line_feed_inside(
                    Seq::empty(),
                    "[\n"@,
                    joined(item_texts(items@, inner), ",\n"@) + "\n"@ + pad + "]"@,
                    1,
                );
                assert(padded_text(data, pad) =~= Seq::<char>::empty() + "[\n"@ + (joined(
                    item_texts(items@, inner),
                    ",\n"@,
                ) + "\n"@ + pad + "]"@));
            },
            _ => {},
        }
    }
}

/// A text between a first part and a last part that are not empty begins as
/// the first and ends as the last.
proof fn lemma_edges(first: Seq<char>, middle: Seq<char>, last: Seq<char>)
    requires
        first.len() > 0,
        last.len() > 0,
    ensures
        (first + middle + last).len() > 0,
        (first + middle + last)[0] == first[0],
        (first + middle + last).last() == last.last(),
{
}

/// The text of a data tree is not empty; it does not begin with a space and
/// does not end with a line feed.
pub proof fn lemma_text_edges(data: Data, pad: Seq<char>)
    ensures
        padded_text(data, pad).len() > 0,
        padded_text(data, pad)[0] != ' ',
        padded_text(data, pad).last() != '\n',
{
    let inner = pad + "  "@;
    let text = padded_text(data, pad);
    reveal_strlit("Constr(");
    reveal_strlit(", [])");
    reveal_strlit("])");
    reveal_strlit("Map({})");
    reveal_strlit("Map({ ");
    reveal_strlit(" })");
    reveal_strlit("Map({\n");
    reveal_strlit("})");
    reveal_strlit("[]");
    reveal_strlit("[\n");
    reveal_strlit("]");
    reveal_strlit("Int(");
    reveal_strlit(")");
    reveal_strlit("BigInt(+0x");
    reveal_strlit("BigUInt(-0x");
    reveal_strlit("Bytes(0x");
    match data {
        Data::Constr { tag, fields } => {
            let number = decimal_text(tag as nat);
            if fields@.len() == 0 {
                lemma_edges("Constr("@, number, ", [])"@);
            } else if fields@.len() == 1 && simple(fields@[0]) {
                let middle = number + ", ["@ + padded_text(fields@[0], Seq::empty());
                lemma_edges("Constr("@, middle, "])"@);
                assert(text =~= "Constr("@ + middle + "])"@);
            } else {
                let middle = number + ", [\n"@ + joined(item_texts(fields@, inner), ",\n"@)
                    + "\n"@ + pad;
                lemma_edges("Constr("@, middle, "])"@);
                assert(text =~= "Constr("@ + middle + "])"@);
            }
        },
        Data::Mapping(pairs) => {
            if pairs@.len() == 0 {
            } else if pairs@.len() == 1 && simple(pairs@[0].0) && simple(pairs@[0].1) {
                let middle = padded_text(pairs@[0].0, Seq::empty()) + " => "@ + padded_text(
                    pairs@[0].1,
                    Seq::empty(),
                );
                lemma_edges("Map({ "@, middle, " })"@);
                assert(text =~= "Map({ "@ + middle + " })"@);
            } else {
                let middle = joined(pair_texts(pairs@, inner), ",\n"@) + "\n"@ + pad;
                lemma_edges("Map({\n"@, middle, "})"@);
                assert(text =~= "Map({\n"@ + middle + "})"@);
            }
        },
        Data::Array(items) => {
            if items@.len() == 0 {
            } else {
                let middle = joined(item_texts(items@, inner), ",\n"@) + "\n"@ + pad;
                lemma_edges("[\n"@, middle, "]"@);
                assert(text =~= "[\n"@ + middle + "]"@);
            }
        },
        Data::Int(n) => {
            lemma_edges("Int("@, int_text(n as int), ")"@);
        },
        Data::BigUInt(bytes) => {
            lemma_edges("BigInt(+0x"@, hex_text(bytes@), ")"@);
        },
        Data::BigNInt(bytes) => {
            lemma_edges("BigUInt(-0x"@, hex_text(bytes@), ")"@);
        },
        Data::BoundedBytes(bytes) => {
            lemma_edges("Bytes(0x"@, hex_text(bytes@), ")"@);
        },
    }
}

} // verus!
