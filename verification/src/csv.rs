//! Comma-separated values: how a field is written, and how fields are read back from a row.

use crate::text::joined;
use vstd::prelude::*;
use vstd::string::*;

verus! {

/// A text in which every quotation mark stands twice.
pub open spec fn quotes_doubled(s: Seq<char>) -> Seq<char>
    decreases s.len(),
{
    if s.len() == 0 {
        seq![]
    } else if s.last() == '"' {
        quotes_doubled(s.drop_last()).push('"').push('"')
    } else {
        quotes_doubled(s.drop_last()).push(s.last())
    }
}

/// Whether a field must stand in quotation marks.
pub open spec fn needs_quotes(s: Seq<char>) -> bool {
    s.contains(',') || s.contains('"') || s.contains('\n')
}

/// A field as it stands in a row.
pub open spec fn csv_field(s: Seq<char>) -> Seq<char> {
    if needs_quotes(s) {
        seq!['"'] + quotes_doubled(s) + seq!['"']
    } else {
        s
    }
}

/// A field as it stands in a row: in quotation marks, with those inside doubled, if it holds a
/// comma, a quotation mark or a line break.
pub fn csv_escape(field: &str) -> (s: String)
    ensures
        s@ == csv_field(field@),
{
    let mut special = false;
    let mut body = String::new();
    for c in it: field.chars()
        invariant
            it.seq() == field@,
            body@ == quotes_doubled(field@.take(it.index() as int)),
            special <==> needs_quotes(field@.take(it.index() as int)),
    {
        let ghost before = field@.take(it.index() as int);
        let ghost after = field@.take(it.index() + 1);
        assert(after == before.push(c));
        assert(after.drop_last() == before);
        proof {
            lemma_push_contains(before, c, ',');
            lemma_push_contains(before, c, '"');
            lemma_push_contains(before, c, '\n');
        }
        if c == '"' {
            body.push('"');
        }
        body.push(c);
        if c == ',' || c == '"' || c == '\n' {
            special = true;
        }
    }
    assert(field@.take(field@.len() as int) == field@);
    if !special {
        return field.to_string();
    }
    let mut s = String::new();
    s.push('"');
    s.append(body.as_str());
    s.push('"');
    assert(s@ == seq!['"'] + quotes_doubled(field@) + seq!['"']);
    s
}

proof fn lemma_push_contains(s: Seq<char>, c: char, x: char)
    ensures
        s.push(c).contains(x) <==> s.contains(x) || c == x,
{
    if s.contains(x) {
        let i = choose|i: int| 0 <= i < s.len() && s[i] == x;
        assert(s.push(c)[i] == x);
    }
    if c == x {
        assert(s.push(c)[s.len() as int] == x);
    }
    if s.push(c).contains(x) && c != x {
        let i = choose|i: int| 0 <= i < s.push(c).len() && s.push(c)[i] == x;
        assert(s[i] == x);
    }
}

/// A text in which every pair of quotation marks is replaced by one.
pub open spec fn quotes_halved(s: Seq<char>) -> Seq<char>
    decreases s.len(),
{
    if s.len() == 0 {
        seq![]
    } else if s.len() >= 2 && s.last() == '"' {
        quotes_halved(s.drop_last().drop_last()).push('"')
    } else {
        quotes_halved(s.drop_last()).push(s.last())
    }
}

/// The text that a field of a row stands for.
pub open spec fn csv_unfield(s: Seq<char>) -> Seq<char> {
    if s.len() >= 2 && s[0] == '"' {
        quotes_halved(s.subrange(1, s.len() - 1))
    } else {
        s
    }
}

proof fn lemma_halved_doubled(s: Seq<char>)
    ensures
        quotes_halved(quotes_doubled(s)) == s,
    decreases s.len(),
{
    if s.len() > 0 {
        let before = s.drop_last();
        lemma_halved_doubled(before);
        let d = quotes_doubled(before);
        assert(before.push(s.last()) == s);
        if s.last() == '"' {
            assert(d.push('"').push('"').drop_last().drop_last() == d);
        } else {
            assert(d.push(s.last()).drop_last() == d);
        }
    }
}

/// A field can be read back from a row: it stands for the text that it was made of.
pub proof fn law_csv_fields_read_back(s: Seq<char>)
    ensures
        csv_unfield(csv_field(s)) == s,
{
    if needs_quotes(s) {
        let f = csv_field(s);
        assert(f.subrange(1, f.len() - 1) == quotes_doubled(s));
        lemma_halved_doubled(s);
    } else if s.len() > 0 && s[0] == '"' {
        assert(s.contains('"'));
    }
}

/// Where the first comma stands that is not inside quotation marks, or the length if there is none;
/// `inside` says whether the text starts inside.
pub open spec fn first_bare_comma(s: Seq<char>, inside: bool) -> int
    decreases s.len(),
{
    if s.len() == 0 || (s[0] == ',' && !inside) {
        0
    } else {
        1 + first_bare_comma(s.drop_first(), inside != (s[0] == '"'))
    }
}

proof fn lemma_first_bare_comma_range(s: Seq<char>, inside: bool)
    ensures
        0 <= first_bare_comma(s, inside) <= s.len(),
    decreases s.len(),
{
    if s.len() > 0 && !(s[0] == ',' && !inside) {
        lemma_first_bare_comma_range(s.drop_first(), inside != (s[0] == '"'));
    }
}

/// The fields of a row as they stand in it: what lies between the commas outside quotation marks.
pub open spec fn row_fields(s: Seq<char>) -> Seq<Seq<char>>
    decreases s.len(),
    via row_fields_decreases
{
    let i = first_bare_comma(s, false);
    if i >= s.len() {
        seq![s]
    } else {
        seq![s.take(i)] + row_fields(s.skip(i + 1))
    }
}

#[via_fn]
proof fn row_fields_decreases(s: Seq<char>) {
    lemma_first_bare_comma_range(s, false);
}

/// Whether a text ends inside quotation marks, if no comma in it is bare.
spec fn passes(s: Seq<char>, inside: bool) -> Option<bool>
    decreases s.len(),
{
    if s.len() == 0 {
        Some(inside)
    } else if s[0] == ',' && !inside {
        None
    } else {
        passes(s.drop_first(), inside != (s[0] == '"'))
    }
}

/// A text that can stand in a row as a field: no comma in it is bare, and it leaves its quotation
/// marks.
pub closed spec fn is_field(s: Seq<char>) -> bool {
    passes(s, false) == Some(false)
}

proof fn lemma_passes_concat(a: Seq<char>, b: Seq<char>, inside: bool)
    requires
        passes(a, inside) is Some,
    ensures
        passes(a + b, inside) == passes(b, passes(a, inside)->0),
        first_bare_comma(a + b, inside) == a.len() + first_bare_comma(b, passes(a, inside)->0),
    decreases a.len(),
{
    if a.len() == 0 {
        assert(a + b == b);
    } else {
        assert((a + b)[0] == a[0]);
        assert((a + b).drop_first() == a.drop_first() + b);
        lemma_passes_concat(a.drop_first(), b, inside != (a[0] == '"'));
    }
}

proof fn lemma_plain_passes(s: Seq<char>)
    requires
        !s.contains(','),
        !s.contains('"'),
    ensures
        passes(s, false) == Some(false),
    decreases s.len(),
{
    if s.len() > 0 {
        let rest = s.drop_first();
        assert(s.contains(s[0]));
        assert forall|c: char| rest.contains(c) implies s.contains(c) by {
            let i = choose|i: int| 0 <= i < rest.len() && rest[i] == c;
            assert(s[i + 1] == c);
        }
        lemma_plain_passes(rest);
    }
}

proof fn lemma_doubled_passes(s: Seq<char>)
    ensures
        passes(quotes_doubled(s), true) == Some(true),
    decreases s.len(),
{
    reveal_with_fuel(passes, 3);
    if s.len() > 0 {
        let before = quotes_doubled(s.drop_last());
        lemma_doubled_passes(s.drop_last());
        if s.last() == '"' {
            let tail = seq!['"', '"'];
            assert(before.push('"').push('"') == before + tail);
            assert(tail.drop_first() == seq!['"']);
            assert(seq!['"'].drop_first() == Seq::<char>::empty());
            lemma_passes_concat(before, tail, true);
        } else {
            let tail = seq![s.last()];
            assert(before.push(s.last()) == before + tail);
            assert(tail.drop_first() == Seq::<char>::empty());
            lemma_passes_concat(before, tail, true);
        }
    }
}

/// A text without commas and quotation marks can stand in a row as it is.
pub proof fn lemma_plain_field(s: Seq<char>)
    requires
        !s.contains(','),
        !s.contains('"'),
    ensures
        is_field(s),
{
    lemma_plain_passes(s);
}

/// Whatever text a field is made of, it can stand in a row.
pub proof fn lemma_field(s: Seq<char>)
    ensures
        is_field(csv_field(s)),
{
    if needs_quotes(s) {
        reveal_with_fuel(passes, 3);
        let open = seq!['"'];
        let body = quotes_doubled(s);
        assert(open.drop_first() == Seq::<char>::empty());
        lemma_passes_concat(open, body, false);
        lemma_doubled_passes(s);
        lemma_passes_concat(open + body, seq!['"'], false);
    } else {
        lemma_plain_passes(s);
    }
}

proof fn lemma_joined_front(fields: Seq<Seq<char>>, sep: Seq<char>)
    requires
        fields.len() >= 2,
    ensures
        joined(fields, sep) == fields[0] + sep + joined(fields.drop_first(), sep),
    decreases fields.len(),
{
    let rest = fields.drop_first();
    if fields.len() == 2 {
        reveal_with_fuel(joined, 3);
        assert(fields.drop_last().len() == 1);
        assert(fields.drop_last()[0] == fields[0]);
        assert(rest[0] == fields[1]);
        assert(joined(fields, sep) == fields[0] + sep + fields[1]);
    } else {
        lemma_joined_front(fields.drop_last(), sep);
        assert(fields.drop_last().drop_first() == rest.drop_last());
        assert(fields.drop_last()[0] == fields[0]);
        assert(rest.last() == fields.last());
        let middle = joined(rest.drop_last(), sep);
        assert((fields[0] + sep + middle) + sep + fields.last() == fields[0] + sep + (middle + sep
            + fields.last()));
    }
}

/// The fields of a row can be told apart: reading a row gives back the fields that it was made of.
pub proof fn law_rows_read_back(fields: Seq<Seq<char>>)
    requires
        fields.len() >= 1,
        forall|i: int| 0 <= i < fields.len() ==> is_field(#[trigger] fields[i]),
    ensures
        row_fields(joined(fields, ","@)) == fields,
    decreases fields.len(),
{
    let f = fields[0];
    assert(is_field(f));
    if fields.len() == 1 {
        lemma_passes_concat(f, Seq::<char>::empty(), false);
        assert(f + Seq::<char>::empty() == f);
        assert(joined(fields, ","@) == f);
        assert(row_fields(f) == seq![f]);
        assert(fields == seq![f]);
    } else {
        reveal_strlit(",");
        let rest = fields.drop_first();
        assert forall|i: int| 0 <= i < rest.len() implies is_field(#[trigger] rest[i]) by {
            assert(rest[i] == fields[i + 1]);
        }
        law_rows_read_back(rest);
        lemma_joined_front(fields, ","@);
        let tail = joined(rest, ","@);
        let row = f + ","@ + tail;
        assert(","@ == seq![',']);
        assert(row == f + (","@ + tail));
        assert((","@ + tail)[0] == ',');
        lemma_passes_concat(f, ","@ + tail, false);
        assert(first_bare_comma(","@ + tail, false) == 0);
        assert(first_bare_comma(row, false) == f.len());
        assert(row.take(f.len() as int) == f);
        assert(row.skip(f.len() as int + 1) == tail);
        assert(seq![f] + rest == fields);
    }
}

/// A field stands in quotation marks exactly if it holds a comma, a quotation mark or a line break; any
/// other stands as it is. So a line break or a comma outside quotation marks is never a field's.
pub proof fn law_only_special_fields_are_quoted(s: Seq<char>)
    ensures
        s.contains(',') || s.contains('"') || s.contains('\n') ==> {
            &&& csv_field(s).len() >= s.len() + 2
            &&& csv_field(s)[0] == '"'
            &&& csv_field(s).last() == '"'
        },
        !s.contains(',') && !s.contains('"') && !s.contains('\n') ==> csv_field(s) == s,
{
    lemma_doubled_len(s);
}

proof fn lemma_doubled_len(s: Seq<char>)
    ensures
        quotes_doubled(s).len() >= s.len(),
    decreases s.len(),
{
    if s.len() > 0 {
        lemma_doubled_len(s.drop_last());
    }
}

/// Quotation marks are doubled, and everything else is kept, wherever it stands.
pub proof fn law_only_quotation_marks_are_doubled(a: Seq<char>, b: Seq<char>, c: char)
    ensures
        quotes_doubled(a + b) == quotes_doubled(a) + quotes_doubled(b),
        c != '"' ==> quotes_doubled(seq![c]) == seq![c],
        quotes_doubled(seq!['"']) == seq!['"', '"'],
    decreases b.len(),
{
    reveal_with_fuel(quotes_doubled, 2);
    assert(seq![c].drop_last() == Seq::<char>::empty());
    assert(seq!['"'].drop_last() == Seq::<char>::empty());
    assert(Seq::<char>::empty().push('"').push('"') == seq!['"', '"']);
    assert(Seq::<char>::empty().push(c) == seq![c]);
    if b.len() == 0 {
        assert(a + b == a);
        assert(quotes_doubled(a) + quotes_doubled(b) == quotes_doubled(a));
    } else {
        law_only_quotation_marks_are_doubled(a, b.drop_last(), c);
        assert((a + b).drop_last() == a + b.drop_last());
        assert((a + b).last() == b.last());
        assert(quotes_doubled(a + b) == quotes_doubled(a) + quotes_doubled(b));
    }
}

} // verus!
