use vstd::prelude::*;
use vstd::string::*;
use vstd::utf8::{decode_utf8, encode_utf8, encode_utf8_decode_utf8, is_char_boundary};
use crate::model::{clone_texts, views};
use crate::types::{EditOp, EditOpView};

verus! {

/// Why an edit could not be applied to a document.
#[derive(Debug, Clone, Copy, PartialEq, Eq, Structural)]
pub enum EditError {
    /// The document has lines, and the edit starts on the row just past the
    /// last one, where there is no line to take a prefix from.
    StartRowMissing,
    /// A column of the edit falls inside the encoding of a character.
    SplitsCharacter,
    /// The edit starts more than one row after the row it ends on.
    InvertedRange,
}

/// The length of a line in bytes, which is the unit that columns count in.
pub open spec fn byte_len(line: Seq<char>) -> nat {
    encode_utf8(line).len()
}

/// True when `col` lies within the line but not between two characters.
pub open spec fn splits_character(line: Seq<char>, col: int) -> bool {
    col <= byte_len(line) && !is_char_boundary(encode_utf8(line), col)
}

/// The text that the first `col` bytes of a line encode.
pub open spec fn text_before(line: Seq<char>, col: int) -> Seq<char> {
    decode_utf8(encode_utf8(line).subrange(0, col))
}

/// The text that the bytes of a line from offset `col` on encode.
pub open spec fn text_from(line: Seq<char>, col: int) -> Seq<char> {
    decode_utf8(encode_utf8(line).subrange(col, byte_len(line) as int))
}

/// What an edit keeps of its start row: the line up to `col`, or the whole
/// line where `col` lies beyond its end.
pub open spec fn edit_prefix(line: Seq<char>, col: int) -> Seq<char> {
    if col <= byte_len(line) {
        text_before(line, col)
    } else {
        line
    }
}

/// What an edit keeps of its end row: the line from `col` on, or nothing
/// where `col` lies beyond its end.
pub open spec fn edit_suffix(line: Seq<char>, col: int) -> Seq<char> {
    if col <= byte_len(line) {
        text_from(line, col)
    } else {
        Seq::empty()
    }
}

/// The lines that an edit puts in place of the range it spans: the
/// replacement text with `prefix` in front of its first line and `suffix`
/// behind its last. An empty replacement counts as one empty line, so that
/// `prefix` and `suffix` are joined.
pub open spec fn replacement(prefix: Seq<char>, suffix: Seq<char>, text: Seq<Seq<char>>) -> Seq<
    Seq<char>,
> {
    let body = if text.len() == 0 {
        seq![Seq::<char>::empty()]
    } else {
        text
    };
    let headed = body.update(0, prefix + body[0]);
    headed.update(headed.len() - 1, headed.last() + suffix)
}

/// True when a row of the edit lies beyond the end-of-file row. Such an edit
/// is dropped without effect.
pub open spec fn out_of_range(lines: Seq<Seq<char>>, op: EditOpView) -> bool {
    op.start.row > lines.len() || op.end.row > lines.len()
}

/// The reason, if any, for which an edit cannot be applied to `lines`.
pub open spec fn edit_fault(lines: Seq<Seq<char>>, op: EditOpView) -> Option<EditError> {
    let n = lines.len();
    if out_of_range(lines, op) || n == 0 {
        None
    } else if op.start.row == n {
        Some(EditError::StartRowMissing)
    } else if splits_character(lines[op.start.row as int], op.start.col as int) {
        Some(EditError::SplitsCharacter)
    } else if op.end.row < n && splits_character(lines[op.end.row as int], op.end.col as int) {
        Some(EditError::SplitsCharacter)
    } else if op.start.row > op.end.row + 1 {
        Some(EditError::InvertedRange)
    } else {
        None
    }
}

/// The document that results from an edit.
///
/// An edit that is out of range or faulty leaves the document as it is. On
/// an empty document the replacement text becomes the document. Otherwise
/// the rows from the start row to the end row, both included, give way to
/// the replacement; an end row equal to the line count stands for the end
/// of the file, has no text of its own and is not part of the range.
pub open spec fn spec_apply_edit(lines: Seq<Seq<char>>, op: EditOpView) -> Seq<Seq<char>> {
    let n = lines.len() as int;
    if out_of_range(lines, op) || edit_fault(lines, op) is Some {
        lines
    } else if n == 0 {
        op.text
    } else {
        let at_end = op.end.row == n;
        let prefix = edit_prefix(lines[op.start.row as int], op.start.col as int);
        let suffix = if at_end {
            Seq::empty()
        } else {
            edit_suffix(lines[op.end.row as int], op.end.col as int)
        };
        let stop = if at_end {
            n
        } else {
            op.end.row + 1
        };
        lines.subrange(0, op.start.row as int) + replacement(prefix, suffix, op.text)
            + lines.subrange(stop, n)
    }
}

/// The part of `line` before byte offset `col`, or `None` where `col` would
/// split a character.
fn prefix_of(line: &String, col: usize) -> (prefix: Option<String>)
    ensures
        prefix is None <==> splits_character(line@, col as int),
        prefix matches Some(p) ==> p@ == edit_prefix(line@, col as int),
{
    let text = line.as_str();
    if col > text.as_bytes().len() {
        Some(line.clone())
    } else if text.is_char_boundary(col) {
        let (head, _) = text.split_at(col);
        proof {
            encode_utf8_decode_utf8(head@);
        }
        Some(String::from_str(head))
    } else {
        None
    }
}

/// The part of `line` from byte offset `col` on, or `None` where `col` would
/// split a character.
fn suffix_of(line: &String, col: usize) -> (suffix: Option<String>)
    ensures
        suffix is None <==> splits_character(line@, col as int),
        suffix matches Some(s) ==> s@ == edit_suffix(line@, col as int),
{
    let text = line.as_str();
    if col > text.as_bytes().len() {
        Some(String::new())
    } else if text.is_char_boundary(col) {
        let (_, tail) = text.split_at(col);
        proof {
            encode_utf8_decode_utf8(tail@);
        }
        Some(String::from_str(tail))
    } else {
        None
    }
}

/// Builds the lines that take the place of the edited range.
fn replacement_lines(prefix: String, suffix: &String, text: &Vec<String>) -> (out: Vec<String>)
    ensures
        views(out@) == replacement(prefix@, suffix@, views(text@)),
{
    let mut out: Vec<String> = Vec::new();
    let mut first = prefix;
    if text.len() == 0 {
        first.append(suffix.as_str());
        out.push(first);
    } else {
        first.append(text[0].as_str());
        out.push(first);
        let mut i: usize = 1;
        while i < text.len()
            invariant
                1 <= i <= text.len(),
                out@.len() == i,
                out@[0]@ == prefix@ + text@[0]@,
                forall|j: int| 1 <= j < i ==> out@[j]@ == text@[j]@,
            decreases text.len() - i,
        {
            out.push(text[i].clone());
            i += 1;
        }
        let last: usize = out.len() - 1;
        out[last].append(suffix.as_str());
    }
    assert(views(out@) =~= replacement(prefix@, suffix@, views(text@)));
    out
}

/// Puts `new_lines` in place of the rows from `start` up to, not including,
/// `stop`.
fn splice_lines(lines: &mut Vec<String>, start: usize, stop: usize, new_lines: Vec<String>)
    requires
        start <= stop <= old(lines)@.len(),
    ensures
        final(lines)@ == old(lines)@.subrange(0, start as int) + new_lines@ + old(lines)@.subrange(
            stop as int,
            old(lines)@.len() as int,
        ),
{
    let mut middle = new_lines;
    let mut tail = lines.split_off(stop);
    lines.truncate(start);
    lines.append(&mut middle);
    lines.append(&mut tail);
    assert(old(lines)@.subrange(0, stop as int).subrange(0, start as int) =~= old(lines)@.subrange(
        0,
        start as int,
    ));
}

/// Applies a structural edit to a document held as lines.
///
/// An edit with a row beyond the end-of-file row is dropped: the document
/// stays as it is, and that is no error. An edit that cannot be placed (see
/// [`EditError`]) leaves the document as it is and is reported.
pub fn apply_edit(lines: &mut Vec<String>, op: &EditOp) -> (outcome: Result<(), EditError>)
    ensures
        views(final(lines)@) == spec_apply_edit(views(old(lines)@), op@),
        outcome == match edit_fault(views(old(lines)@), op@) {
            Some(fault) => Err::<(), EditError>(fault),
            None => Ok(()),
        },
        out_of_range(views(old(lines)@), op@) ==> views(final(lines)@) == views(old(lines)@),
        old(lines)@.len() == 0 && op.start.row == 0 && op.end.row == 0 ==> views(final(lines)@)
            == op@.text,
{
    let n: usize = lines.len();
    if op.start.row > n || op.end.row > n {
        return Ok(());
    }
    if n == 0 {
        let mut text = clone_texts(&op.text);
        lines.append(&mut text);
        assert(views(lines@) =~= op@.text);
        return Ok(());
    }
    if op.start.row == n {
        return Err(EditError::StartRowMissing);
    }
    let prefix = match prefix_of(&lines[op.start.row], op.start.col) {
        Some(p) => p,
        None => {
            return Err(EditError::SplitsCharacter);
        },
    };
    let at_end = op.end.row == n;
    let suffix = if at_end {
        String::new()
    } else {
        match suffix_of(&lines[op.end.row], op.end.col) {
            Some(s) => s,
            None => {
                return Err(EditError::SplitsCharacter);
            },
        }
    };
    let stop: usize = if at_end {
        n
    } else {
        op.end.row + 1
    };
    if op.start.row > stop {
        return Err(EditError::InvertedRange);
    }
    let new_lines = replacement_lines(prefix, &suffix, &op.text);
    splice_lines(lines, op.start.row, stop, new_lines);
    assert(views(lines@) =~= spec_apply_edit(views(old(lines)@), op@));
    Ok(())
}

/// On an empty document, an edit whose rows are both zero makes its
/// replacement text the whole document.
pub proof fn lemma_edit_of_empty_document(op: EditOpView)
    requires
        op.start.row == 0,
        op.end.row == 0,
    ensures
        spec_apply_edit(Seq::empty(), op) == op.text,
{
}

/// An edit with a row beyond the line count changes nothing and is no fault.
pub proof fn lemma_edit_out_of_range(lines: Seq<Seq<char>>, op: EditOpView)
    requires
        op.start.row > lines.len() || op.end.row > lines.len(),
    ensures
        spec_apply_edit(lines, op) == lines,
        edit_fault(lines, op) is None,
{
}

/// An edit whose end row equals the line count runs to the end of the file:
/// nothing is kept behind the replacement, every row from the start row on
/// is replaced, and the rows before it stay.
pub proof fn lemma_edit_to_end_of_file(lines: Seq<Seq<char>>, op: EditOpView)
    requires
        op.end.row == lines.len(),
        op.start.row < lines.len(),
        !splits_character(lines[op.start.row as int], op.start.col as int),
    ensures
        edit_fault(lines, op) is None,
        spec_apply_edit(lines, op) == lines.subrange(0, op.start.row as int) + replacement(
            edit_prefix(lines[op.start.row as int], op.start.col as int),
            Seq::empty(),
            op.text,
        ),
{
    let n = lines.len() as int;
    assert(lines.subrange(n, n) =~= Seq::<Seq<char>>::empty());
    let kept = lines.subrange(0, op.start.row as int);
    let put = replacement(
        edit_prefix(lines[op.start.row as int], op.start.col as int),
        Seq::empty(),
        op.text,
    );
    assert(kept + put + Seq::<Seq<char>>::empty() =~= kept + put);
}

/// An edit that is applied keeps the rows before its start row, and puts at
/// least one line in place of the range: as many as the replacement text
/// has, or one where it has none.
pub proof fn lemma_edit_shape(lines: Seq<Seq<char>>, op: EditOpView)
    requires
        lines.len() > 0,
        !out_of_range(lines, op),
        edit_fault(lines, op) is None,
    ensures
        ({
            let after = spec_apply_edit(lines, op);
            let stop = if op.end.row == lines.len() {
                lines.len() as int
            } else {
                op.end.row + 1
            };
            let put = if op.text.len() == 0 {
                1
            } else {
                op.text.len() as int
            };
            &&& after.len() == op.start.row + put + (lines.len() - stop)
            &&& forall|i: int| 0 <= i < op.start.row ==> after[i] == lines[i]
            &&& forall|i: int|
                stop <= i < lines.len() ==> after[op.start.row + put + (i - stop)] == lines[i]
            &&& forall|i: int| 0 < i < put - 1 ==> after[op.start.row + i] == op.text[i]
        }),
{
}

/// A column that splits no character cuts the line in two: what lies before
/// it takes `col` bytes, and what lies before and behind it is the line.
pub proof fn lemma_column_cuts_line(line: Seq<char>, col: int)
    requires
        0 <= col <= byte_len(line),
        !splits_character(line, col),
    ensures
        text_before(line, col) + text_from(line, col) == line,
        byte_len(text_before(line, col)) == col,
        byte_len(text_from(line, col)) == byte_len(line) - col,
{
    let bytes = encode_utf8(line);
    vstd::utf8::encode_utf8_valid_utf8(line);
    vstd::utf8::valid_utf8_split(bytes, col);
    vstd::utf8::decode_utf8_split(bytes, col);
    encode_utf8_decode_utf8(line);
    vstd::utf8::decode_utf8_encode_utf8(bytes.subrange(0, col));
    vstd::utf8::decode_utf8_encode_utf8(bytes.subrange(col, bytes.len() as int));
}

/// In a line of ASCII text every byte is a character, so columns count
/// characters: no column within the line splits one, the prefix is the first
/// `col` characters and the suffix is the rest.
pub proof fn lemma_ascii_columns(line: Seq<char>, col: int)
    requires
        vstd::utf8::is_ascii_chars(line),
        0 <= col <= line.len(),
    ensures
        byte_len(line) == line.len(),
        !splits_character(line, col),
        edit_prefix(line, col) == line.subrange(0, col),
        edit_suffix(line, col) == line.subrange(col, line.len() as int),
{
    let bytes = encode_utf8(line);
    let head = line.subrange(0, col);
    let tail = line.subrange(col, line.len() as int);
    vstd::utf8::is_ascii_chars_encode_utf8(line);
    vstd::utf8::is_ascii_chars_encode_utf8(head);
    vstd::utf8::is_ascii_chars_encode_utf8(tail);
    assert(encode_utf8(head) =~= bytes.subrange(0, col));
    assert(encode_utf8(tail) =~= bytes.subrange(col, bytes.len() as int));
    encode_utf8_decode_utf8(head);
    encode_utf8_decode_utf8(tail);
    vstd::utf8::encode_utf8_valid_utf8(line);
    if col < bytes.len() {
        vstd::utf8::is_char_boundary_iff_not_is_continuation_byte(bytes, col);
        assert(line[col] as u8 == bytes[col]);
        let c = line[col];
        assert('\0' <= c <= '\u{7f}');
        assert(!vstd::utf8::is_continuation_byte(c as u8));
    } else {
        vstd::utf8::is_char_boundary_start_end_of_seq(bytes);
    }
}

} // verus!
