//! What holds of the startup command and of the saved flags.

use vstd::prelude::*;

use crate::startup;
use crate::startup::{NumberRead, ResolvedPath};
use crate::text;
use crate::text_laws;
use crate::wide;

verus! {

/// Reading the flags fails exactly where opening the key or reading the value fails for another
/// reason than that it does not exist. A 32-bit number of four bytes is taken as it is; in every
/// other case the initial flags stand for it.
pub proof fn flags_are_the_saved_number_or_the_initial_ones(read: Result<NumberRead, i32>)
    ensures
        startup::flags_read(read) is Err <==> match read {
            Err(code) => code != 2,
            Ok(number) => number.status != 0 && number.status != 2,
        },
        startup::flags_read(read) matches Err(code) ==> code == (match read {
            Err(code) => code,
            Ok(number) => number.status,
        }),
        startup::flags_read(read) matches Ok(flags) ==> flags == (match read {
            Ok(number) => if number.status == 0 && number.found.value_type == 4
                && number.found.byte_len == 4 {
                number.found.value as usize
            } else {
                3
            },
            Err(_) => 3,
        }),
{
}

/// A buffer for a number of bytes holds them all, with less than one unit to spare.
pub proof fn buffers_fit_their_bytes(byte_len: u32)
    ensures
        byte_len <= 2 * startup::units_for(byte_len) <= byte_len + 1,
{
}

/// The text of a command is what stands before the first zero unit, or before the end of what was
/// read, or before the end of the buffer, whichever comes first.
pub proof fn a_command_ends_at_a_zero_or_with_what_was_read(
    units: Seq<u16>,
    rest: Seq<u16>,
    byte_len: u32,
)
    requires
        forall|i: int| 0 <= i < units.len() ==> #[trigger] units[i] != 0,
        byte_len / 2 == units.len() || byte_len / 2 > units.len() && (rest.len() == 0 || rest[0] == 0),
    ensures
        startup::command_text(units + rest, byte_len) == wide::decode_wide(units),
{
    let buffer = units + rest;
    let filled = if byte_len / 2 < buffer.len() {
        buffer.take((byte_len / 2) as int)
    } else {
        buffer
    };
    if byte_len / 2 == units.len() || rest.len() == 0 {
        assert(filled =~= units);
        wide::lemma_until_nul(units, Seq::empty());
    } else {
        let tail = filled.skip(units.len() as int + 1);
        assert(filled[units.len() as int] == rest[0]);
        assert(filled =~= units + seq![0u16] + tail);
        wide::lemma_until_nul(units, tail);
    }
}

/// All of a text is white space.
pub open spec fn is_blank(s: Seq<char>) -> bool {
    forall|i: int| 0 <= i < s.len() ==> text::is_white_space(#[trigger] s[i])
}

/// A text ends in something that is not white space, with white space behind it, or is blank.
proof fn lemma_trimmed_end(s: Seq<char>) -> (parts: (Seq<char>, Seq<char>))
    ensures
        s == parts.0 + parts.1,
        is_blank(parts.1),
        parts.0.len() > 0 ==> !text::is_white_space(parts.0.last()),
    decreases s.len(),
{
    if s.len() > 0 && text::is_white_space(s.last()) {
        let parts = lemma_trimmed_end(s.drop_last());
        let back = parts.1.push(s.last());
        assert(s.drop_last() == parts.0 + parts.1);
        assert(s =~= s.drop_last().push(s.last()));
        assert((parts.0 + parts.1).push(s.last()) =~= parts.0 + back);
        (parts.0, back)
    } else {
        assert(s =~= s + Seq::<char>::empty());
        (s, Seq::empty())
    }
}

/// A command that starts with a double quote names what stands up to the next one, whatever follows
/// it; where there is no next one, it names nothing.
pub proof fn a_quoted_command_names_what_is_quoted(
    blank: Seq<char>,
    path: Seq<char>,
    rest: Seq<char>,
)
    requires
        is_blank(blank),
        !path.contains('"'),
    ensures
        startup::executable_of(blank + (seq!['"'] + path + seq!['"'] + rest)) == Some(path),
        startup::executable_of(blank + (seq!['"'] + path)) is None,
{
    let p = text::is_not_char('"');
    let (kept, back) = lemma_trimmed_end(rest);
    let core = seq!['"'] + path + seq!['"'] + kept;
    let whole = blank + (seq!['"'] + path + seq!['"'] + rest);
    assert(whole =~= blank + core + back);
    assert(core[0] == '"');
    assert(core.last() == (if kept.len() > 0 {
        kept.last()
    } else {
        '"'
    }));
    text_laws::texts_lose_white_space_or_quotes(blank, core, back);
    let inner = core.skip(1);
    assert forall|i: int| 0 <= i < path.len() implies p(#[trigger] inner[i]) by {
        assert(inner[i] == path[i]);
        if path[i] == '"' {
            assert(path.contains('"'));
        }
    }
    assert(inner[path.len() as int] == '"');
    text::lemma_span_is(inner, p, path.len());
    assert(inner.take(path.len() as int) =~= path);

    let (start, end) = lemma_trimmed_end(path);
    let open = seq!['"'] + start;
    assert(blank + (seq!['"'] + path) =~= blank + open + end);
    assert(open[0] == '"');
    assert(open.last() == (if start.len() > 0 {
        start.last()
    } else {
        '"'
    }));
    text_laws::texts_lose_white_space_or_quotes(blank, open, end);
    let tail = open.skip(1);
    assert forall|i: int| 0 <= i < tail.len() implies p(#[trigger] tail[i]) by {
        assert(tail[i] == path[i]);
        if path[i] == '"' {
            assert(path.contains('"'));
        }
    }
    text::lemma_span_is(tail, p, tail.len());
}

/// Any other command names its first word, whatever follows it, and a blank one names nothing.
pub proof fn any_other_command_names_its_first_word(
    blank: Seq<char>,
    word: Seq<char>,
    rest: Seq<char>,
)
    requires
        is_blank(blank),
        word.len() > 0,
        word[0] != '"',
        forall|i: int| 0 <= i < word.len() ==> !text::is_white_space(#[trigger] word[i]),
        rest.len() == 0 || text::is_white_space(rest[0]),
    ensures
        startup::executable_of(blank + (word + rest)) == Some(word),
        startup::executable_of(blank) is None,
{
    let p = text::not_white();
    let (kept, back) = lemma_trimmed_end(rest);
    let core = word + kept;
    assert(blank + (word + rest) =~= blank + core + back);
    assert(core[0] == word[0]);
    assert(core.last() == (if kept.len() > 0 {
        kept.last()
    } else {
        word[word.len() - 1]
    }));
    text_laws::texts_lose_white_space_or_quotes(blank, core, back);
    assert forall|i: int| 0 <= i < word.len() implies p(#[trigger] core[i]) by {
        assert(core[i] == word[i]);
    }
    if kept.len() > 0 {
        assert(core[word.len() as int] == rest[0]);
    }
    text::lemma_span_is(core, p, word.len());
    assert(core.take(word.len() as int) =~= word);
    text_laws::texts_lose_white_space_or_quotes(blank, Seq::empty(), Seq::empty());
    assert(blank + Seq::<char>::empty() + Seq::<char>::empty() =~= blank);
}

/// A path is compared as the file system has it where it could be resolved, else as it was given.
pub proof fn resolved_paths_are_compared(path: ResolvedPath)
    ensures
        path.canonical is Some ==> path.compared() == path.canonical->0@,
        path.canonical is None ==> path.compared() == path.given@,
{
}

/// The command of an executable is a double quote, its path, a double quote and a zero unit.
pub proof fn commands_are_quoted_paths(exe_path: Seq<u16>)
    ensures
        startup::quoted_command(exe_path).len() == exe_path.len() + 3,
        startup::quoted_command(exe_path)[0] == '"' as u16,
        forall|i: int|
            0 <= i < exe_path.len() ==> startup::quoted_command(exe_path)[i + 1]
                == #[trigger] exe_path[i],
        startup::quoted_command(exe_path)[exe_path.len() as int + 1] == '"' as u16,
        startup::quoted_command(exe_path).last() == 0,
{
}

} // verus!
