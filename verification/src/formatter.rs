//! From the service's answer to a readable text.
//!
//! An answer holds the whole transcript as one text, and in an older shape
//! also as a list of fragments with their times. Where the fragments are
//! there, the text is rebuilt from them, one fragment a line, and a fragment
//! that does not start after the one before it is taken as a sign of a new
//! turn: a blank line follows it. The text then goes between a heading and a
//! tail of fixed form.

use crate::seconds::Seconds;
use vstd::prelude::*;

verus! {

/// One fragment of a transcript, as the service gives it: the seconds at which
/// it starts and ends, and what was said.
#[derive(Debug)]
pub struct JSONChunk {
    pub timestamp: [Seconds; 2],
    pub text: String,
}

/// The answer of the service: the whole text, and in the older shape the
/// fragments as well.
#[derive(Debug)]
pub struct JSONResponse {
    pub text: String,
    pub chunks: Option<Vec<JSONChunk>>,
}

/// What a [`JSONChunk`] stands for.
pub struct Fragment {
    pub start: Seconds,
    pub end: Seconds,
    pub text: Seq<char>,
}

/// What a [`JSONResponse`] stands for.
pub struct Transcript {
    pub text: Seq<char>,
    pub fragments: Option<Seq<Fragment>>,
}

impl View for JSONChunk {
    type V = Fragment;

    open spec fn view(&self) -> Fragment {
        Fragment { start: self.timestamp[0], end: self.timestamp[1], text: self.text@ }
    }
}

impl View for JSONResponse {
    type V = Transcript;

    open spec fn view(&self) -> Transcript {
        Transcript {
            text: self.text@,
            fragments: match self.chunks {
                Some(chunks) => Some(fragments_of(chunks@)),
                None => None,
            },
        }
    }
}

/// The fragments that a list of chunks stands for, in the same order.
pub open spec fn fragments_of(chunks: Seq<JSONChunk>) -> Seq<Fragment> {
    chunks.map_values(|chunk: JSONChunk| chunk@)
}

/// What a list of strings holds.
pub open spec fn texts_of(strings: Seq<String>) -> Seq<Seq<char>> {
    strings.map_values(|s: String| s@)
}

/// The start that fragment `i` is held against: that of the fragment before
/// it, and zero for the first.
pub open spec fn start_before(fragments: Seq<Fragment>, i: int) -> Seconds {
    if i == 0 {
        Seconds::spec_zero()
    } else {
        fragments[i - 1].start
    }
}

/// Whether a blank line follows fragment `i`: it does where the fragment
/// starts at or before the start it is held against.
pub open spec fn break_follows(fragments: Seq<Fragment>, i: int) -> bool {
    fragments[i].start.at_most(start_before(fragments, i))
}

/// The piece that marks a break. Joined with line feeds on both sides it
/// leaves a blank line.
pub open spec fn break_piece() -> Seq<char> {
    seq!['\n']
}

/// The pieces that the fragments give, in their stored order: each fragment's
/// text, and after it a break piece where a blank line follows it.
pub open spec fn pieces(fragments: Seq<Fragment>) -> Seq<Seq<char>>
    decreases fragments.len(),
{
    if fragments.len() == 0 {
        Seq::empty()
    } else {
        let i = fragments.len() - 1;
        let spoken = pieces(fragments.drop_last()).push(fragments[i].text);
        if break_follows(fragments, i) {
            spoken.push(break_piece())
        } else {
            spoken
        }
    }
}

/// The pieces in a row, with `separator` between each two of them.
pub open spec fn joined(pieces: Seq<Seq<char>>, separator: Seq<char>) -> Seq<char>
    decreases pieces.len(),
{
    if pieces.len() == 0 {
        Seq::empty()
    } else if pieces.len() == 1 {
        pieces[0]
    } else {
        joined(pieces.drop_last(), separator) + separator + pieces.last()
    }
}

/// The body that fragments give: their pieces, joined by line feeds.
pub open spec fn fragments_body(fragments: Seq<Fragment>) -> Seq<char> {
    joined(pieces(fragments), seq!['\n'])
}

/// The body of the readable text: that of the fragments where the answer has
/// fragments, be it none at all, and the answer's own text where it has not.
pub open spec fn body_text(transcript: Transcript) -> Seq<char> {
    match transcript.fragments {
        Some(fragments) => fragments_body(fragments),
        None => transcript.text,
    }
}

/// How many dashes the line above and below the heading has.
pub const RULE_WIDTH: usize = 115;

/// The line of dashes above and below the heading.
pub open spec fn rule() -> Seq<char> {
    Seq::new(RULE_WIDTH as nat, |i: int| '-')
}

/// The header line: the caller's, or one space where the caller gives none.
pub open spec fn header_text(header: Option<&str>) -> Seq<char> {
    match header {
        Some(line) => line@,
        None => seq![' '],
    }
}

/// The readable text as a whole, line by line: a rule, the name of the file
/// it is written to, the header line, a second rule, two blank lines, the body,
/// and a tail of one space that ends the body's last line and two blank lines
/// after it.
pub open spec fn document_text(file_name: Seq<char>, header: Seq<char>, body: Seq<char>) -> Seq<
    char,
> {
    rule() + seq!['\n'] + file_name + seq!['\n'] + header + seq!['\n'] + rule() + seq![
        '\n',
        '\n',
        '\n',
    ] + body + seq![' ', '\n', '\n', '\n']
}

/// The pieces of the first `i + 1` fragments are those of the first `i`, then
/// the text of fragment `i`, then a break piece where a blank line follows it.
pub proof fn lemma_pieces_step(fragments: Seq<Fragment>, i: int)
    requires
        0 <= i < fragments.len(),
    ensures
        pieces(fragments.take(i + 1)) == if break_follows(fragments, i) {
            pieces(fragments.take(i)).push(fragments[i].text).push(break_piece())
        } else {
            pieces(fragments.take(i)).push(fragments[i].text)
        },
{
    let upto = fragments.take(i + 1);
    assert(upto.drop_last() =~= fragments.take(i));
    assert(break_follows(upto, i) == break_follows(fragments, i));
}

/// How many of the fragments before fragment `i` a blank line follows.
pub open spec fn breaks_before(fragments: Seq<Fragment>, i: int) -> int
    decreases i,
{
    if i <= 0 {
        0
    } else if break_follows(fragments, i - 1) {
        breaks_before(fragments, i - 1) + 1
    } else {
        breaks_before(fragments, i - 1)
    }
}

/// What the fragments say, in their stored order.
pub open spec fn spoken(fragments: Seq<Fragment>) -> Seq<Seq<char>> {
    fragments.map_values(|fragment: Fragment| fragment.text)
}

/// Breaks among the first fragments are counted the same in the whole list
/// and in its first `n` fragments.
proof fn lemma_breaks_before_of_prefix(fragments: Seq<Fragment>, n: int, i: int)
    requires
        0 <= i <= n <= fragments.len(),
    ensures
        breaks_before(fragments.take(n), i) == breaks_before(fragments, i),
    decreases i,
{
    if i > 0 {
        lemma_breaks_before_of_prefix(fragments, n, i - 1);
        assert(break_follows(fragments.take(n), i - 1) == break_follows(fragments, i - 1));
    }
}

/// Where every piece stands. The text of fragment `i` comes after the texts of
/// the fragments before it and after their breaks. Where a blank line follows
/// fragment `i`, the break piece is the very next piece: it comes after the
/// text of the fragment that starts early, not before it. There are no other
/// pieces than these.
pub proof fn lemma_piece_positions(fragments: Seq<Fragment>, i: int)
    requires
        0 <= i < fragments.len(),
    ensures
        pieces(fragments).len() == fragments.len() + breaks_before(
            fragments,
            fragments.len() as int,
        ),
        0 <= i + breaks_before(fragments, i) < pieces(fragments).len(),
        pieces(fragments)[i + breaks_before(fragments, i)] == fragments[i].text,
        break_follows(fragments, i) ==> i + breaks_before(fragments, i) + 1 < pieces(
            fragments,
        ).len(),
        break_follows(fragments, i) ==> pieces(fragments)[i + breaks_before(fragments, i) + 1]
            == break_piece(),
    decreases fragments.len(),
{
    let last = fragments.len() - 1;
    let earlier = fragments.drop_last();
    assert(earlier =~= fragments.take(last));
    lemma_breaks_before_of_prefix(fragments, last, last);
    if last > 0 {
        lemma_piece_positions(earlier, 0);
    }
    if i < last {
        lemma_piece_positions(earlier, i);
        lemma_breaks_before_of_prefix(fragments, last, i);
        assert(break_follows(earlier, i) == break_follows(fragments, i));
    }
}

/// Where no fragment starts at or before the start it is held against, so
/// where the first starts after zero and each later one after the one before
/// it, the pieces are what the fragments say and nothing else: the body has
/// one fragment a line and no blank line.
pub proof fn lemma_rising_starts_give_no_break(fragments: Seq<Fragment>)
    requires
        forall|i: int| 0 <= i < fragments.len() ==> !break_follows(fragments, i),
    ensures
        pieces(fragments) == spoken(fragments),
        fragments_body(fragments) == joined(spoken(fragments), seq!['\n']),
    decreases fragments.len(),
{
    if fragments.len() > 0 {
        let earlier = fragments.drop_last();
        assert forall|i: int| 0 <= i < earlier.len() implies !break_follows(earlier, i) by {
            assert(break_follows(earlier, i) == break_follows(fragments, i));
        }
        lemma_rising_starts_give_no_break(earlier);
    }
    assert(pieces(fragments) =~= spoken(fragments));
}

/// Two fragments of which the first starts after zero and the second at or
/// before the first: the blank line comes after the second, at the end of the
/// body, and the two texts stand on adjoining lines.
pub proof fn lemma_falling_start_breaks_after(first: Fragment, second: Fragment)
    requires
        !first.start.at_most(Seconds::spec_zero()),
        second.start.at_most(first.start),
    ensures
        fragments_body(seq![first, second]) == first.text + seq!['\n'] + second.text + seq![
            '\n',
            '\n',
        ],
{
    let both = seq![first, second];
    let alone = both.drop_last();
    assert(alone.drop_last() =~= Seq::<Fragment>::empty());
    assert(!break_follows(alone, 0));
    assert(break_follows(both, 1));
    assert(pieces(alone) =~= seq![first.text]) by {
        reveal_with_fuel(pieces, 2);
    }
    let all = pieces(both);
    assert(all =~= seq![first.text, second.text, break_piece()]);
    assert(all.drop_last() =~= seq![first.text, second.text]);
    assert(all.drop_last().drop_last() =~= seq![first.text]);
    assert(joined(all, seq!['\n']) =~= first.text + seq!['\n'] + second.text + seq!['\n', '\n']) by {
        reveal_with_fuel(joined, 3);
    }
}

/// The pieces in a row, with `separator` between each two of them.
fn join(pieces: &Vec<String>, separator: &str) -> (row: String)
    ensures
        row@ == joined(texts_of(pieces@), separator@),
{
    let mut row = String::new();
    let mut i: usize = 0;
    while i < pieces.len()
        invariant
            i <= pieces.len(),
            row@ == joined(texts_of(pieces@).take(i as int), separator@),
        decreases pieces.len() - i,
    {
        let ghost all = texts_of(pieces@);
        assert(all.take(i + 1).drop_last() =~= all.take(i as int));
        if i > 0 {
            row.append(separator);
        }
        row.append(pieces[i].as_str());
        assert(row@ =~= joined(all.take(i + 1), separator@));
        i += 1;
    }
    assert(texts_of(pieces@).take(i as int) =~= texts_of(pieces@));
    row
}

/// The body of the readable text for `response`.
///
/// With fragments, their texts are taken in stored order, one a line; a blank
/// line follows each fragment that starts at or before the fragment before it,
/// the first being held against zero. Without fragments, the body is the
/// answer's text as it stands. An empty list of fragments is a list: it gives
/// the empty body, whatever the answer's text holds.
pub fn reconstruct_body(response: &JSONResponse) -> (body: String)
    ensures
        body@ == body_text(response@),
        response@.fragments is None ==> body@ == response@.text,
        response@.fragments == Some(Seq::<Fragment>::empty()) ==> body@ == Seq::<char>::empty(),
{
    match &response.chunks {
        Some(chunks) => {
            let ghost fragments = fragments_of(chunks@);
            let mut text_chunks: Vec<String> = Vec::new();
            let mut last_ts = Seconds::zero();
            let mut i: usize = 0;
            while i < chunks.len()
                invariant
                    i <= chunks.len(),
                    fragments == fragments_of(chunks@),
                    last_ts == start_before(fragments, i as int),
                    texts_of(text_chunks@) == pieces(fragments.take(i as int)),
                decreases chunks.len() - i,
            {
                let chunk = &chunks[i];
                let ghost before = texts_of(text_chunks@);
                proof {
                    lemma_pieces_step(fragments, i as int);
                }
                text_chunks.push(chunk.text.clone());
                assert(texts_of(text_chunks@) =~= before.push(fragments[i as int].text));
                let ts = chunk.timestamp[0];
                if ts.le(last_ts) {
                    let mark = String::from_str("\n");
                    proof {
                        reveal_strlit("\n");
                        assert(mark@ =~= break_piece());
                    }
                    text_chunks.push(mark);
                    assert(texts_of(text_chunks@) =~= before.push(fragments[i as int].text).push(
                        break_piece(),
                    ));
                }
                last_ts = ts;
                i += 1;
            }
            assert(fragments.take(i as int) =~= fragments);
            proof {
                reveal_strlit("\n");
                assert("\n"@ =~= seq!['\n']);
            }
            join(&text_chunks, "\n")
        },
        None => response.text.clone(),
    }
}

/// A line of `RULE_WIDTH` dashes.
fn rule_line() -> (line: String)
    ensures
        line@ == rule(),
{
    let mut line = String::new();
    let mut i: usize = 0;
    while i < RULE_WIDTH
        invariant
            i <= RULE_WIDTH,
            line@ == Seq::new(i as nat, |j: int| '-'),
        decreases RULE_WIDTH - i,
    {
        proof {
            reveal_strlit("-");
        }
        line.append("-");
        i += 1;
        assert(line@ =~= Seq::new(i as nat, |j: int| '-'));
    }
    line
}

/// The readable text for `response`, to be written to the file `output_file`.
///
/// The name of that file stands in the heading as it is given. `header` is the
/// line below it; without one, the line holds a single space.
pub fn format_transcription(response: &JSONResponse, output_file: &str, header: Option<&str>) -> (document: String)
    ensures
        document@ == document_text(output_file@, header_text(header), body_text(response@)),
{
    let body = reconstruct_body(response);
    let line = rule_line();
    let h = match header {
        Some(given) => given,
        None => " ",
    };
    proof {
        reveal_strlit(" ");
        reveal_strlit("\n");
        reveal_strlit("\n\n\n");
        reveal_strlit(" \n\n\n");
        assert(h@ =~= header_text(header));
    }
    let mut document = String::new();
    document.append(line.as_str());
    document.append("\n");
    document.append(output_file);
    document.append("\n");
    document.append(h);
    document.append("\n");
    document.append(line.as_str());
    document.append("\n\n\n");
    document.append(body.as_str());
    document.append(" \n\n\n");
    assert(document@ =~= document_text(output_file@, header_text(header), body_text(response@)));
    document
}

} // verus!
