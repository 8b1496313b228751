//! The text summary of a row: one line per named value.

use vstd::prelude::*;
use crate::extract::{extract, pairs_view, summary_for_address};
use crate::model::{Failure, FeatureCollection, Field, FieldView, TableView};
use crate::text::{
    first_index, first_pair_index, has_pair, join_lines, lemma_first_index_after,
    lemma_first_pair_index_after, lemma_split_join, split_lines,
};

verus! {

/// The line of one named value: `name/alias: value`.
pub open spec fn summary_line(field: FieldView, value: Seq<char>) -> Seq<char> {
    field.name + seq!['/'] + field.alias + seq![':', ' '] + value
}

/// The lines of a list of named values, in the order of the list.
pub open spec fn summary_lines(pairs: Seq<(FieldView, Seq<char>)>) -> Seq<Seq<char>> {
    pairs.map_values(|p: (FieldView, Seq<char>)| summary_line(p.0, p.1))
}

/// The summary of a list of named values: its lines joined by newlines.
pub open spec fn summary_text(pairs: Seq<(FieldView, Seq<char>)>) -> Seq<char> {
    join_lines(summary_lines(pairs))
}

/// What `generate_summary` yields for a collection and an address.
pub open spec fn summary_of(collection: Option<TableView>, address: Seq<char>) -> Result<
    Seq<char>,
    Failure,
> {
    match extract(collection, address) {
        Ok(pairs) => Ok(summary_text(pairs)),
        Err(e) => Err(e),
    }
}

/// The named value read back from a line: the name ends at the first `/`,
/// the alias at the first `: ` after it, the value is the rest.
pub open spec fn parse_line(line: Seq<char>) -> (FieldView, Seq<char>) {
    let slash = first_index(line, '/');
    let rest = line.skip(slash + 1);
    let colon = first_pair_index(rest, ':', ' ');
    (FieldView { name: line.take(slash), alias: rest.take(colon) }, rest.skip(colon + 2))
}

/// The named values read back from a summary.
pub open spec fn parse_summary(text: Seq<char>) -> Seq<(FieldView, Seq<char>)> {
    split_lines(text).map_values(|line: Seq<char>| parse_line(line))
}

/// A named value survives being written and read back: no part holds a
/// newline, the name holds no `/`, and the alias holds no `: `.
pub open spec fn readable(pair: (FieldView, Seq<char>)) -> bool {
    &&& !pair.0.name.contains('\n')
    &&& !pair.0.name.contains('/')
    &&& !pair.0.alias.contains('\n')
    &&& !has_pair(pair.0.alias, ':', ' ')
    &&& !pair.1.contains('\n')
}

/// Reading a line back yields the named value it was written from.
pub proof fn lemma_parse_line(field: FieldView, value: Seq<char>)
    requires
        readable((field, value)),
    ensures
        parse_line(summary_line(field, value)) == (field, value),
{
    let line = summary_line(field, value);
    let tail = field.alias + seq![':', ' '] + value;
    assert(line =~= field.name + seq!['/'] + tail);
    lemma_first_index_after(field.name, '/', tail);
    let rest = line.skip(field.name.len() as int + 1);
    assert(rest =~= tail);
    lemma_first_pair_index_after(field.alias, ':', ' ', value);
    let parsed = parse_line(line);
    assert(parsed.0.name =~= field.name);
    assert(parsed.0.alias =~= field.alias);
    assert(parsed.1 =~= value);
}

/// Round trip of the summary format: splitting a summary on newlines, each
/// line at its first `/` and the rest at its first `: `, recovers the name,
/// alias and value of every entry, in order.
pub proof fn lemma_summary_round_trip(pairs: Seq<(FieldView, Seq<char>)>)
    requires
        forall|i: int| 0 <= i < pairs.len() ==> readable(#[trigger] pairs[i]),
    ensures
        parse_summary(summary_text(pairs)) == pairs,
{
    let lines = summary_lines(pairs);
    assert forall|i: int| 0 <= i < lines.len() implies !(#[trigger] lines[i]).contains('\n')
        && lines[i].len() > 0 by {
        let p = pairs[i];
        assert(readable(p));
        let line = lines[i];
        if line.contains('\n') {
            let k = choose|k: int| 0 <= k < line.len() && line[k] == '\n';
            let n = p.0.name.len() as int;
            let a = p.0.alias.len() as int;
            if k < n {
                assert(p.0.name.contains(p.0.name[k]));
            } else if n < k <= n + a {
                assert(p.0.alias.contains(p.0.alias[k - n - 1]));
            } else if k > n + a + 2 {
                assert(p.1.contains(p.1[k - n - a - 3]));
            }
        }
    }
    lemma_split_join(lines);
    let parsed = parse_summary(summary_text(pairs));
    assert(parsed.len() == pairs.len());
    assert forall|i: int| 0 <= i < pairs.len() implies parsed[i] == pairs[i] by {
        assert(readable(pairs[i]));
        lemma_parse_line(pairs[i].0, pairs[i].1);
    }
    assert(parsed =~= pairs);
}

/// Writes the summary of a list of named values: one line
/// `name/alias: value` per entry, in order, joined by single newlines, with
/// no newline at the end.
pub fn build_summary(pairs: &Vec<(Field, String)>) -> (summary: String)
    ensures
        summary@ == summary_text(pairs_view(pairs@)),
{
    let ghost lines = summary_lines(pairs_view(pairs@));
    let mut summary = String::new();
    let mut i: usize = 0;
    while i < pairs.len()
        invariant
            i <= pairs.len(),
            lines == summary_lines(pairs_view(pairs@)),
            summary@ == join_lines(lines.take(i as int)),
        decreases pairs.len() - i,
    {
        if i > 0 {
            summary.append("\n");
        }
        let entry = &pairs[i];
        summary.append(entry.0.name.as_str());
        summary.append("/");
        summary.append(entry.0.alias.as_str());
        summary.append(": ");
        summary.append(entry.1.as_str());
        proof {
            reveal_strlit("\n");
            reveal_strlit("/");
            reveal_strlit(": ");
            let line = summary_line(entry.0@, entry.1@);
            assert(lines[i as int] == line);
            assert("\n"@ =~= seq!['\n']);
            assert("/"@ =~= seq!['/']);
            assert(": "@ =~= seq![':', ' ']);
            let upto = lines.take(i + 1);
            assert(upto.drop_last() =~= lines.take(i as int));
            assert(upto.last() == line);
            if i == 0 {
                assert(join_lines(lines.take(0)) =~= Seq::<char>::empty());
                assert(summary@ =~= line);
            } else {
                assert(summary@ =~= join_lines(lines.take(i as int)) + seq!['\n'] + line);
            }
        }
        i = i + 1;
    }
    assert(lines.take(i as int) =~= lines);
    summary
}

/// Extracts the row that `addr` selects and writes its summary.
pub fn generate_summary(collection: FeatureCollection, addr: &str) -> (result: Result<
    String,
    Failure,
>)
    requires
        collection.well_formed(),
    ensures
        match result {
            Ok(summary) => summary_of(collection@, addr@) == Ok::<Seq<char>, Failure>(summary@),
            Err(e) => summary_of(collection@, addr@) == Err::<Seq<char>, Failure>(e),
        },
{
    match summary_for_address(collection, addr) {
        Ok(pairs) => Ok(build_summary(&pairs)),
        Err(e) => Err(e),
    }
}

} // verus!
