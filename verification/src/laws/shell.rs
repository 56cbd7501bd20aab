//! The recovery shell.
use vstd::prelude::*;
use vstd::utf8::*;
use crate::flash::FlashError;
use crate::laws::console::{flash_words, hexed, lemma_numbers, written};
use crate::recovery;
use crate::recovery::{
    after_word, ascii_text, copy_field, field_with, first_word, is_blank, is_white, request_of,
    set_state, trim_end, trim_nul, trim_start, word_len, Identity, Line, ReadBack, Request,
    ShellEncode, ShellErase, ShellKey, ShellLoad, ShellReadBack, ShellStep, ShellWipe, ShellWrite,
    State, StateView,
};
use crate::text::law_nul_len;

verus! {

/// A key that shows itself goes to the end of the line, as long as the line has
/// fewer than 256; a backspace or a delete takes the last one away; a carriage
/// return or a line feed ends the line as it is; any other key does nothing. The
/// console shows just that.
pub proof fn law_key_edits_the_line(line: Line, key: u8, r: (Line, String))
    requires
        call_ensures(Line::key, (line, key), r),
    ensures
        32 <= key <= 126 && line@.len() < 256 ==> r.0@ == line@ + seq![key] && r.1@ == seq![
            key as char,
        ],
        32 <= key <= 126 && line@.len() >= 256 ==> r.0@ == line@ && r.1@.len() == 0,
        (key == 8 || key == 127) && line@.len() > 0 ==> r.0@ == line@.take(line@.len() - 1)
            && r.1@ == "\x08 \x08"@,
        (key == 8 || key == 127) && line@.len() == 0 ==> r.0@ == line@ && r.1@.len() == 0,
        key == 13 || key == 10 ==> r.0@ == line@ && r.1@ == "\n"@,
        (key < 32 || key > 127) && key != 8 && key != 13 && key != 10 ==> r.0@ == line@
            && r.1@.len() == 0,
{
    assert(line@.push(key) =~= line@ + seq![key]);
    if line@.len() > 0 {
        assert(line@.drop_last() =~= line@.take(line@.len() - 1));
    }
}

/// A new line is empty, and a line reads as its bytes.
pub proof fn law_line_reads_as_typed(fresh: Line, line: Line, text: &str)
    requires
        call_ensures(Line::new, (), fresh),
        call_ensures(Line::text, (&line,), text),
    ensures
        fresh@.len() == 0,
        text@.len() == line@.len(),
        forall|i: int| 0 <= i < line@.len() ==> #[trigger] text@[i] == line@[i] as char,
{
}

/// While a line is typed, nothing that is staged changes, and the line changes
/// key by key.
pub proof fn law_typing_stages_nothing(shell: ShellKey, key: u8, step: ShellStep)
    requires
        call_ensures(ShellKey::resume, (shell, key), step),
        key != 13,
        key != 10,
    ensures
        step matches ShellStep::ReadKey { out, next } && {
            let line = shell@.1;
            &&& next@.0 == shell@.0
            &&& 32 <= key <= 126 && line.len() < 256 ==> next@.1 == line + seq![key] && out@ == seq![
                key as char,
            ]
            &&& 32 <= key <= 126 && line.len() >= 256 ==> next@.1 == line && out@.len() == 0
            &&& (key == 8 || key == 127) && line.len() > 0 ==> next@.1 == line.take(line.len() - 1)
                && out@ == "\x08 \x08"@
            &&& (key == 8 || key == 127) && line.len() == 0 ==> next@.1 == line && out@.len() == 0
            &&& (key < 32 || key > 127) && key != 8 ==> next@.1 == line && out@.len() == 0
        },
{
    let line = shell@.1;
    assert(line.push(key) =~= line + seq![key]);
    if line.len() > 0 {
        assert(line.drop_last() =~= line.take(line.len() - 1));
    }
}

/// `n` spaces.
pub open spec fn gap(n: nat) -> Seq<char> {
    Seq::new(n, |i: int| ' ')
}

/// `line` holds printable bytes, as every line of the shell does, and reads `text`.
pub open spec fn line_reads(line: Seq<u8>, text: Seq<char>) -> bool {
    &&& line.len() == text.len()
    &&& forall|i: int|
        0 <= i < line.len() ==> 32 <= #[trigger] line[i] <= 126 && text[i] == line[i] as char
}

/// A word: something, without a space.
pub open spec fn is_word(s: Seq<char>) -> bool {
    &&& s.len() > 0
    &&& forall|i: int| 0 <= i < s.len() ==> #[trigger] s[i] != ' '
}

/// `s` has no space at either end.
pub open spec fn is_trimmed(s: Seq<char>) -> bool {
    s.len() > 0 ==> s[0] != ' ' && s.last() != ' '
}

/// `line` is the word `head` and behind it `rest`, with any number of spaces in
/// front of it, behind it, and in between.
pub open spec fn commands(line: Seq<u8>, head: Seq<char>, rest: Seq<char>) -> bool {
    exists|before: nat, between: nat, after: nat| #[trigger]
        spread(line, before, head, between, rest, after)
}

/// `line` is `head` and `rest`, with so many spaces around them.
pub open spec fn spread(
    line: Seq<u8>,
    before: nat,
    head: Seq<char>,
    between: nat,
    rest: Seq<char>,
    after: nat,
) -> bool {
    &&& line_reads(line, gap(before) + (head + gap(between) + rest) + gap(after))
    &&& is_word(head)
    &&& is_trimmed(rest)
    &&& rest.len() > 0 <==> between > 0
}

/// `s` holds printable characters only.
pub open spec fn is_plain(s: Seq<char>) -> bool {
    forall|i: int| 0 <= i < s.len() ==> ' ' <= #[trigger] s[i] <= '~'
}

proof fn lemma_trim_start(n: nat, s: Seq<char>)
    requires
        s.len() > 0 ==> !is_white(s[0]),
    ensures
        trim_start(gap(n) + s) == s,
    decreases n,
{
    let t = gap(n) + s;
    if n > 0 {
        assert(t[0] == ' ');
        assert(t.skip(1) =~= gap((n - 1) as nat) + s);
        lemma_trim_start((n - 1) as nat, s);
    } else {
        assert(t =~= s);
    }
}

proof fn lemma_trim_end(n: nat, s: Seq<char>)
    requires
        s.len() > 0 ==> !is_white(s.last()),
    ensures
        trim_end(s + gap(n)) == s,
    decreases n,
{
    let t = s + gap(n);
    if n > 0 {
        assert(t.last() == ' ');
        assert(t.drop_last() =~= s + gap((n - 1) as nat));
        lemma_trim_end((n - 1) as nat, s);
    } else {
        assert(t =~= s);
    }
}

proof fn lemma_word(head: Seq<char>, s: Seq<char>)
    requires
        forall|i: int| 0 <= i < head.len() ==> !is_blank(#[trigger] head[i]),
        s.len() > 0 ==> is_blank(s[0]),
    ensures
        word_len(head + s) == head.len(),
    decreases head.len(),
{
    let t = head + s;
    if head.len() > 0 {
        assert(t[0] == head[0]);
        assert(t.skip(1) =~= head.skip(1) + s);
        assert forall|i: int| 0 <= i < head.skip(1).len() implies !is_blank(
            #[trigger] head.skip(1)[i],
        ) by {
            assert(!is_blank(head[i + 1]));
        }
        lemma_word(head.skip(1), s);
    } else {
        assert(t =~= s);
    }
}

proof fn lemma_split(head: Seq<char>, between: nat, rest: Seq<char>)
    requires
        is_word(head),
        is_trimmed(rest),
        is_plain(head),
        is_plain(rest),
        rest.len() > 0 <==> between > 0,
    ensures
        first_word(head + gap(between) + rest) == head,
        after_word(head + gap(between) + rest) == rest,
{
    let s = gap(between) + rest;
    let t = head + gap(between) + rest;
    assert(t =~= head + s);
    if between > 0 {
        assert(s[0] == ' ');
    }
    assert forall|i: int| 0 <= i < head.len() implies !is_blank(#[trigger] head[i]) by {
        assert(' ' <= head[i] <= '~');
    }
    lemma_word(head, s);
    assert(t.take(head.len() as int) =~= head);
    assert(t.skip(head.len() as int) =~= s);
    if rest.len() > 0 {
        assert(' ' <= rest[0] <= '~');
    }
    lemma_trim_start(between, rest);
}

proof fn lemma_spread(
    line: Seq<u8>,
    before: nat,
    head: Seq<char>,
    between: nat,
    rest: Seq<char>,
    after: nat,
)
    requires
        spread(line, before, head, between, rest, after),
    ensures
        is_plain(head),
        is_plain(rest),
        trim_end(trim_start(ascii_text(line))) == head + gap(between) + rest,
        first_word(head + gap(between) + rest) == head,
        after_word(head + gap(between) + rest) == rest,
{
    let cmd = head + gap(between) + rest;
    let text = gap(before) + cmd + gap(after);
    assert(ascii_text(line) =~= text);
    assert forall|i: int| 0 <= i < head.len() implies ' ' <= #[trigger] head[i] <= '~' by {
        assert(text[before + i] == head[i]);
        assert(32 <= line[before + i] <= 126);
    }
    assert forall|i: int| 0 <= i < rest.len() implies ' ' <= #[trigger] rest[i] <= '~' by {
        let j = before + head.len() + between + i;
        assert(text[j] == rest[i]);
        assert(32 <= line[j] <= 126);
    }
    assert(' ' <= head[0] <= '~' && ' ' <= head.last() <= '~');
    if rest.len() > 0 {
        assert(' ' <= rest.last() <= '~');
        assert(cmd.last() == rest.last());
    } else {
        assert(cmd =~= head);
    }
    assert(cmd[0] == head[0]);
    assert(text =~= gap(before) + (cmd + gap(after)));
    assert((cmd + gap(after))[0] == cmd[0]);
    lemma_trim_start(before, cmd + gap(after));
    lemma_trim_end(after, cmd);
    lemma_split(head, between, rest);
}

proof fn lemma_commands(line: Seq<u8>, head: Seq<char>, rest: Seq<char>)
    requires
        commands(line, head, rest),
    ensures
        is_plain(head),
        is_plain(rest),
        is_word(head),
        is_trimmed(rest),
        trim_end(trim_start(ascii_text(line))).len() > 0,
        first_word(trim_end(trim_start(ascii_text(line)))) == head,
        after_word(trim_end(trim_start(ascii_text(line)))) == rest,
{
    let (before, between, after) = choose|before: nat, between: nat, after: nat| #[trigger]
        spread(line, before, head, between, rest, after);
    lemma_spread(line, before, head, between, rest, after);
}

/// The names of the commands differ.
proof fn lemma_names()
    ensures
        "info"@ != "help"@ && "info"@ != "?"@ && "info"@ != "set"@ && "info"@ != "commit"@
            && "info"@ != "wipe"@ && "info"@ != "reboot"@,
        "help"@ != "set"@ && "help"@ != "commit"@ && "help"@ != "wipe"@ && "help"@ != "reboot"@,
        "?"@ != "set"@ && "?"@ != "commit"@ && "?"@ != "wipe"@ && "?"@ != "reboot"@,
        "set"@ != "commit"@ && "set"@ != "wipe"@ && "set"@ != "reboot"@,
        "commit"@ != "wipe"@ && "commit"@ != "reboot"@ && "wipe"@ != "reboot"@,
        "board"@ != "house"@ && "board"@ != "token"@ && "house"@ != "token"@,
        is_word("board"@) && is_word("house"@) && is_word("token"@),
        is_plain("board"@) && is_plain("house"@) && is_plain("token"@),
{
    reveal_strlit("info");
    reveal_strlit("help");
    reveal_strlit("?");
    reveal_strlit("set");
    reveal_strlit("commit");
    reveal_strlit("wipe");
    reveal_strlit("reboot");
    reveal_strlit("board");
    reveal_strlit("house");
    reveal_strlit("token");
    assert("info"@[0] == 'i' && "help"@[0] == 'h' && "?"@[0] == '?' && "set"@[0] == 's');
    assert("commit"@[0] == 'c' && "wipe"@[0] == 'w' && "reboot"@[0] == 'r');
    assert("board"@[0] == 'b' && "house"@[0] == 'h' && "token"@[0] == 't');
}

/// What a field holds reads `text`: the bytes in front of the first NUL encode it,
/// or they encode nothing, and `text` says so.
pub open spec fn holds(field: Seq<u8>, text: Seq<char>) -> bool {
    exists|n: int| #[trigger] holds_up_to(field, n, text)
}

/// The first NUL of `field` is at `n`, or there is none and `n` is the end; the
/// bytes in front of it read `text`.
pub open spec fn holds_up_to(field: Seq<u8>, n: int, text: Seq<char>) -> bool {
    &&& 0 <= n <= field.len()
    &&& forall|i: int| 0 <= i < n ==> #[trigger] field[i] != 0
    &&& n < field.len() ==> field[n] == 0
    &&& valid_utf8(field.take(n)) ==> encode_utf8(text) == field.take(n)
    &&& !valid_utf8(field.take(n)) ==> text == "<non-utf8>"@
}

proof fn lemma_holds(field: Seq<u8>, text: Seq<char>)
    ensures
        text == recovery::shown(field) <==> holds(field, text),
{
    let n = crate::text::nul_len(field);
    law_nul_len(field, n);
    if text == recovery::shown(field) {
        if valid_utf8(field.take(n as int)) {
            decode_utf8_encode_utf8(field.take(n as int));
        }
        assert(holds_up_to(field, n as int, text));
    }
    if holds(field, text) {
        let m = choose|m: int| #[trigger] holds_up_to(field, m, text);
        law_nul_len(field, m as nat);
        if valid_utf8(field.take(m)) {
            encode_utf8_decode_utf8(text);
        }
    }
}

/// A field reads as what it holds.
pub proof fn law_field_reads_as_it_holds(field: &[u8], text: &str)
    requires
        call_ensures(trim_nul, (field,), text),
    ensures
        holds(field@, text@),
{
    lemma_holds(field@, text@);
}

/// A value goes into a field if and only if it fits and holds no NUL: then the
/// field holds its bytes, and NULs behind them. A value that does not go in leaves
/// the field as it was.
pub proof fn law_field_takes_what_fits<const N: usize>(
    dst: &mut [u8; N],
    value: &str,
    r: Result<(), &'static str>,
    i: int,
)
    requires
        call_ensures(copy_field::<N>, (dst, value), r),
    ensures
        r is Ok <==> encode_utf8(value@).len() <= N && !encode_utf8(value@).contains(0),
        r is Ok && 0 <= i < encode_utf8(value@).len() ==> final(dst)@[i] == encode_utf8(value@)[i],
        r is Ok && encode_utf8(value@).len() <= i < N ==> final(dst)@[i] == 0,
        r is Ok ==> holds(final(dst)@, value@),
        r is Err ==> *final(dst) == *old(dst),
        r matches Err(e) ==> e@ == if encode_utf8(value@).len() > N {
            "value too long"@
        } else {
            "interior NUL not allowed"@
        },
{
    if r is Ok {
        recovery::law_field_round_trip(N as nat, value@);
        lemma_holds(final(dst)@, value@);
    }
}

/// `step` shows `text` and the prompt, and waits for a new line with `st` staged.
pub open spec fn waits(step: ShellStep, text: Seq<char>, st: StateView) -> bool {
    &&& step matches ShellStep::ReadKey { out, next }
    &&& out@ == text + "recovery> "@
    &&& next@.0 == st
    &&& next@.1.len() == 0
}

/// A line of spaces, or an empty one, is answered by the prompt.
pub proof fn law_empty_line(shell: ShellKey, key: u8, step: ShellStep)
    requires
        key == 13 || key == 10,
        call_ensures(ShellKey::resume, (shell, key), step),
        forall|i: int| 0 <= i < shell@.1.len() ==> #[trigger] shell@.1[i] == 32,
    ensures
        waits(step, "\n"@, shell@.0),
{
    let text = ascii_text(shell@.1);
    assert(text =~= gap(text.len()) + Seq::empty());
    lemma_trim_start(text.len(), Seq::empty());
}

/// `info` shows what is staged, and of the token only how long it is.
pub proof fn law_info_shows_the_state(
    shell: ShellKey,
    key: u8,
    rest: Seq<char>,
    step: ShellStep,
    board: Seq<char>,
    house: Seq<char>,
    token: Seq<char>,
)
    requires
        key == 13 || key == 10,
        call_ensures(ShellKey::resume, (shell, key), step),
        commands(shell@.1, "info"@, rest),
        holds(shell@.0.board_id, board),
        holds(shell@.0.house_id, house),
        holds(shell@.0.house_token, token),
    ensures
        waits(
            step,
            "\n"@ + ("  source:    "@ + (if shell@.0.decoded_ok {
                "flash (decoded OK)"@
            } else {
                "flash unreadable / unprovisioned (staging from blank)"@
            }) + "\n  board_id:  \""@ + board + "\"\n  house_id:  \""@ + house
                + "\"\n  token_len: "@ + written(encode_utf8(token).len(), 10)
                + " bytes (redacted)\n  dirty:     "@ + (if shell@.0.dirty {
                "true"@
            } else {
                "false"@
            }) + "\n"@),
            shell@.0,
        ),
{
    lemma_commands(shell@.1, "info"@, rest);
    lemma_holds(shell@.0.board_id, board);
    lemma_holds(shell@.0.house_id, house);
    lemma_holds(shell@.0.house_token, token);
    lemma_numbers();
}

/// `help` and `?` show the menu.
pub proof fn law_help_shows_the_menu(
    shell: ShellKey,
    key: u8,
    head: Seq<char>,
    rest: Seq<char>,
    step: ShellStep,
)
    requires
        key == 13 || key == 10,
        call_ensures(ShellKey::resume, (shell, key), step),
        head == "help"@ || head == "?"@,
        commands(shell@.1, head, rest),
    ensures
        waits(
            step,
            "\n"@ + ("commands:\n"@
                + "  info                       show staged identity (token redacted)\n"@
                + "  set board <id>             stage new board_id (≤ 32 bytes)\n"@
                + "  set house <id>             stage new house_id (≤ 32 bytes)\n"@
                + "  set token <token>          stage new house_token (≤ 192 bytes)\n"@
                + "  commit                     erase + write identity partition\n"@
                + "  wipe                       erase identity partition\n"@
                + "  reboot                     print power-cycle hint and halt\n"@
                + "  help                       this menu\n"@),
            shell@.0,
        ),
{
    lemma_commands(shell@.1, head, rest);
    lemma_names();
}

/// `commit` has what is staged encoded, field by field.
pub proof fn law_commit_encodes_the_state(
    shell: ShellKey,
    key: u8,
    rest: Seq<char>,
    step: ShellStep,
)
    requires
        key == 13 || key == 10,
        call_ensures(ShellKey::resume, (shell, key), step),
        commands(shell@.1, "commit"@, rest),
    ensures
        step matches ShellStep::Encode { out, board, house, token, next } && {
            &&& out@ == "\n"@
            &&& holds(shell@.0.board_id, board@)
            &&& holds(shell@.0.house_id, house@)
            &&& holds(shell@.0.house_token, token@)
            &&& next@ == shell@.0
        },
{
    lemma_commands(shell@.1, "commit"@, rest);
    lemma_names();
    if let ShellStep::Encode { out, board, house, token, next } = step {
        lemma_holds(shell@.0.board_id, board@);
        lemma_holds(shell@.0.house_id, house@);
        lemma_holds(shell@.0.house_token, token@);
    }
}

/// `wipe` has the identity sector at `0xD000` wiped.
pub proof fn law_wipe_erases_the_sector(
    shell: ShellKey,
    key: u8,
    rest: Seq<char>,
    step: ShellStep,
)
    requires
        key == 13 || key == 10,
        call_ensures(ShellKey::resume, (shell, key), step),
        commands(shell@.1, "wipe"@, rest),
    ensures
        step matches ShellStep::Wipe { out, at, next } && {
            &&& out@ == "\n"@ + "wiping sector at 0x"@ + hexed(0xD000, 5) + " …\n"@
            &&& at == 0xD000
            &&& next@ == shell@.0
        },
{
    lemma_commands(shell@.1, "wipe"@, rest);
    lemma_names();
    lemma_numbers();
}

/// `reboot` says to power-cycle, and halts.
pub proof fn law_reboot_halts(shell: ShellKey, key: u8, rest: Seq<char>, step: ShellStep)
    requires
        key == 13 || key == 10,
        call_ensures(ShellKey::resume, (shell, key), step),
        commands(shell@.1, "reboot"@, rest),
    ensures
        step matches ShellStep::Halt { out } && out@ == "\n"@
            + "power-cycle the board to apply changes.\n"@,
{
    lemma_commands(shell@.1, "reboot"@, rest);
    lemma_names();
}

/// A line that begins with any other word is told so, and changes nothing.
pub proof fn law_unknown_command(
    shell: ShellKey,
    key: u8,
    head: Seq<char>,
    rest: Seq<char>,
    step: ShellStep,
)
    requires
        key == 13 || key == 10,
        call_ensures(ShellKey::resume, (shell, key), step),
        commands(shell@.1, head, rest),
        head != "info"@,
        head != "help"@,
        head != "?"@,
        head != "set"@,
        head != "commit"@,
        head != "wipe"@,
        head != "reboot"@,
    ensures
        waits(
            step,
            "\n"@ + "unknown command: '"@ + head + "' (try 'help')\n"@,
            shell@.0,
        ),
{
    lemma_commands(shell@.1, head, rest);
}

/// A field of `cap` bytes that was set to `value`: its bytes, and NULs behind them.
pub open spec fn filled_with(field: Seq<u8>, value: Seq<char>, cap: nat) -> bool {
    &&& field.len() == cap
    &&& forall|i: int|
        0 <= i < cap ==> #[trigger] field[i] == if i < value.len() {
            value[i] as u8
        } else {
            0
        }
}

proof fn lemma_plain(value: Seq<char>, cap: nat)
    requires
        is_plain(value),
    ensures
        encode_utf8(value).len() == value.len(),
        value.len() > cap ==> field_with(cap, value) == Err::<Seq<u8>, Seq<char>>(
            "value too long"@,
        ),
        value.len() <= cap ==> (field_with(cap, value) matches Ok(field) && filled_with(
            field,
            value,
            cap,
        ) && holds(field, value)),
{
    assert forall|i: int| 0 <= i < value.len() implies '\0' <= #[trigger] value[i] <= '\u{7f}' by {
        assert(' ' <= value[i] <= '~');
    }
    is_ascii_chars_encode_utf8(value);
    let bytes = encode_utf8(value);
    assert forall|i: int| 0 <= i < bytes.len() implies #[trigger] bytes[i] == value[i] as u8
        && bytes[i] != 0 by {
        assert(' ' <= value[i] <= '~');
    }
    assert(!bytes.contains(0));
    if value.len() <= cap {
        recovery::law_field_round_trip(cap, value);
        lemma_holds(field_with(cap, value)->Ok_0, value);
    }
}

/// The field `name` of what is staged.
pub open spec fn field_named(st: StateView, name: Seq<char>) -> Seq<u8> {
    if name == "board"@ {
        st.board_id
    } else if name == "house"@ {
        st.house_id
    } else {
        st.house_token
    }
}

/// How many bytes the field `name` has, if there is one.
pub open spec fn room_of(name: Seq<char>) -> Option<nat> {
    if name == "board"@ || name == "house"@ {
        Some(32)
    } else if name == "token"@ {
        Some(192)
    } else {
        None
    }
}

/// `set board`, `set house` and `set token` stage a value that fits in 32, 32 and
/// 192 bytes: the field that is named then holds it, and the state is dirty. All
/// else, and all else in any other case, stays as it was, and the answer says what
/// was wrong.
pub proof fn law_set_stages_the_value(
    shell: ShellKey,
    key: u8,
    name: Seq<char>,
    between: nat,
    value: Seq<char>,
    step: ShellStep,
)
    requires
        key == 13 || key == 10,
        call_ensures(ShellKey::resume, (shell, key), step),
        commands(shell@.1, "set"@, name + gap(between) + value),
        is_word(name),
        is_trimmed(value),
        value.len() > 0 <==> between > 0,
    ensures
        room_of(name) is None ==> waits(
            step,
            "\n"@ + ("error: "@ + "unknown field (expected: board, house, token)"@ + "\n"@),
            shell@.0,
        ),
        room_of(name) is Some && value.len() > room_of(name)->0 ==> waits(
            step,
            "\n"@ + ("error: "@ + "value too long"@ + "\n"@),
            shell@.0,
        ),
        room_of(name) is Some && value.len() <= room_of(name)->0 ==> {
            let st = shell@.0;
            &&& step matches ShellStep::ReadKey { out, next }
            &&& out@ == "\n"@ + ("  staged ("@ + written(value.len(), 10) + " bytes)\n"@)
                + "recovery> "@
            &&& next@.1.len() == 0
            &&& next@.0.dirty
            &&& next@.0.decoded_ok == st.decoded_ok
            &&& filled_with(field_named(next@.0, name), value, room_of(name)->0)
            &&& holds(field_named(next@.0, name), value)
            &&& name != "board"@ ==> next@.0.board_id == st.board_id
            &&& name != "house"@ ==> next@.0.house_id == st.house_id
            &&& name != "token"@ ==> next@.0.house_token == st.house_token
        },
{
    let rest = name + gap(between) + value;
    lemma_commands(shell@.1, "set"@, rest);
    lemma_names();
    lemma_numbers();
    assert forall|i: int| 0 <= i < name.len() implies ' ' <= #[trigger] name[i] <= '~' by {
        assert(rest[i] == name[i]);
    }
    assert forall|i: int| 0 <= i < value.len() implies ' ' <= #[trigger] value[i] <= '~' by {
        assert(rest[name.len() + between + i] == value[i]);
    }
    lemma_split(name, between, value);
    assert(rest[0] == name[0]);
    assert(gap(0) + rest =~= rest);
    lemma_trim_start(0, rest);
    lemma_plain(value, 32);
    lemma_plain(value, 192);
    assert(request_of(ascii_text(shell@.1)) == Request::Stage(rest));
    assert(set_state(shell@.0, rest) is Ok <==> room_of(name) is Some && value.len() <= room_of(
        name,
    )->0);
}

/// `set` alone is told how it is used, and changes nothing.
pub proof fn law_set_alone(shell: ShellKey, key: u8, step: ShellStep)
    requires
        key == 13 || key == 10,
        call_ensures(ShellKey::resume, (shell, key), step),
        commands(shell@.1, "set"@, Seq::empty()),
    ensures
        waits(
            step,
            "\n"@ + ("error: "@ + "usage: set board|house|token <value>"@ + "\n"@),
            shell@.0,
        ),
{
    let rest = Seq::<char>::empty();
    lemma_commands(shell@.1, "set"@, rest);
    lemma_names();
    assert(first_word(trim_start(rest)) =~= rest);
    assert(request_of(ascii_text(shell@.1)) == Request::Stage(rest));
}

/// How many spaces `s` begins with.
spec fn led(s: Seq<char>) -> nat
    decreases s.len(),
{
    if s.len() > 0 && s[0] == ' ' {
        1 + led(s.skip(1))
    } else {
        0
    }
}

/// How many spaces `s` ends with.
spec fn trailed(s: Seq<char>) -> nat
    decreases s.len(),
{
    if s.len() > 0 && s.last() == ' ' {
        1 + trailed(s.drop_last())
    } else {
        0
    }
}

/// How many characters `s` has before its first space.
spec fn word_run(s: Seq<char>) -> nat
    decreases s.len(),
{
    if s.len() > 0 && s[0] != ' ' {
        1 + word_run(s.skip(1))
    } else {
        0
    }
}

proof fn lemma_led(s: Seq<char>)
    ensures
        led(s) <= s.len(),
        s == gap(led(s)) + s.skip(led(s) as int),
        led(s) < s.len() ==> s[led(s) as int] != ' ',
    decreases s.len(),
{
    if s.len() > 0 && s[0] == ' ' {
        lemma_led(s.skip(1));
        let n = led(s.skip(1));
        assert forall|i: int| 0 <= i < n + 1 implies s[i] == ' ' by {
            if i > 0 {
                assert(s.skip(1)[i - 1] == gap(n)[i - 1]);
            }
        }
        if n + 1 < s.len() {
            assert(s.skip(1)[n as int] == s[(n + 1) as int]);
        }
    }
    assert(s =~= gap(led(s)) + s.skip(led(s) as int));
}

proof fn lemma_trailed(s: Seq<char>)
    ensures
        trailed(s) <= s.len(),
        s == s.take(s.len() - trailed(s)) + gap(trailed(s)),
        trailed(s) < s.len() ==> s[s.len() - trailed(s) - 1] != ' ',
    decreases s.len(),
{
    if s.len() > 0 && s.last() == ' ' {
        let t = s.drop_last();
        lemma_trailed(t);
        let n = trailed(t);
        assert forall|i: int| s.len() - n - 1 <= i < s.len() implies s[i] == ' ' by {
            if i < s.len() - 1 {
                assert(t[i] == (t.take(t.len() - n) + gap(n))[i]);
            }
        }
    }
    assert(s =~= s.take(s.len() - trailed(s)) + gap(trailed(s)));
}

proof fn lemma_word_run(s: Seq<char>)
    ensures
        word_run(s) <= s.len(),
        forall|i: int| 0 <= i < word_run(s) ==> #[trigger] s[i] != ' ',
        word_run(s) < s.len() ==> s[word_run(s) as int] == ' ',
    decreases s.len(),
{
    if s.len() > 0 && s[0] != ' ' {
        lemma_word_run(s.skip(1));
        assert forall|i: int| 0 <= i < word_run(s) implies #[trigger] s[i] != ' ' by {
            if i > 0 {
                assert(s.skip(1)[i - 1] == s[i]);
            }
        }
    }
}

/// What has no space at either end, and is not empty, is a word and what stands
/// behind it.
proof fn lemma_parts(s: Seq<char>) -> (parts: (Seq<char>, nat, Seq<char>))
    requires
        s.len() > 0,
        is_trimmed(s),
    ensures
        s == parts.0 + gap(parts.1) + parts.2,
        is_word(parts.0),
        is_trimmed(parts.2),
        parts.2.len() > 0 <==> parts.1 > 0,
{
    lemma_word_run(s);
    let n = word_run(s) as int;
    let head = s.take(n);
    let behind = s.skip(n);
    lemma_led(behind);
    let between = led(behind);
    let rest = behind.skip(between as int);
    assert(s =~= head + behind);
    assert(head + gap(between) + rest =~= head + (gap(between) + rest));
    assert(s[0] != ' ');
    assert forall|i: int| 0 <= i < head.len() implies #[trigger] head[i] != ' ' by {
        assert(s[i] != ' ');
    }
    if behind.len() > 0 {
        assert(behind[0] == ' ');
        assert(behind.last() == s.last());
        if rest.len() == 0 {
            assert(behind[behind.len() - 1] == gap(between)[behind.len() - 1]);
        }
    }
    if rest.len() > 0 {
        assert(rest.last() == s.last());
        assert(rest[0] == behind[between as int]);
    }
    (head, between, rest)
}

/// Every line is empty or of spaces only, or it is a word and what stands behind
/// it; and what stands behind `set` is nothing, or a word and a value.
pub proof fn law_every_line_has_an_answer(line: Seq<u8>)
    requires
        forall|i: int| 0 <= i < line.len() ==> 32 <= #[trigger] line[i] <= 126,
    ensures
        (forall|i: int| 0 <= i < line.len() ==> #[trigger] line[i] == 32) || exists|
            head: Seq<char>,
            rest: Seq<char>,
        | #[trigger]
            commands(line, head, rest),
        forall|head: Seq<char>, rest: Seq<char>| #[trigger]
            commands(line, head, rest) && rest.len() > 0 ==> exists|
                name: Seq<char>,
                between: nat,
                value: Seq<char>,
            |
                {
                    &&& rest == #[trigger] (name + gap(between) + value)
                    &&& is_word(name)
                    &&& is_trimmed(value)
                    &&& value.len() > 0 <==> between > 0
                },
{
    let text = Seq::new(line.len(), |i: int| line[i] as char);
    lemma_led(text);
    let before = led(text);
    if before == text.len() {
        assert forall|i: int| 0 <= i < line.len() implies #[trigger] line[i] == 32 by {
            assert(text[i] == (gap(before) + text.skip(before as int))[i]);
            assert(line[i] as char == ' ');
        }
    } else {
        let behind = text.skip(before as int);
        lemma_trailed(behind);
        let after = trailed(behind);
        assert(behind[0] == text[before as int]);
        if after == behind.len() {
            assert(behind[0] == (behind.take(0) + gap(after))[0]);
        }
        let cmd = behind.take(behind.len() - after);
        assert(cmd[0] == behind[0]);
        assert(cmd.last() == behind[behind.len() - after - 1]);
        let (head, between, rest) = lemma_parts(cmd);
        assert(text =~= gap(before) + (head + gap(between) + rest) + gap(after));
        assert(spread(line, before, head, between, rest, after));
        assert(commands(line, head, rest));
    }
    assert forall|head: Seq<char>, rest: Seq<char>| #[trigger]
        commands(line, head, rest) && rest.len() > 0 implies exists|
        name: Seq<char>,
        between: nat,
        value: Seq<char>,
    |
        {
            &&& rest == #[trigger] (name + gap(between) + value)
            &&& is_word(name)
            &&& is_trimmed(value)
            &&& value.len() > 0 <==> between > 0
        } by {
        let (name, between, value) = lemma_parts(rest);
        assert(rest == name + gap(between) + value);
    }
}

/// The shell greets, and has the identity at `0xD000` loaded.
pub proof fn law_shell_loads_the_identity(step: ShellStep)
    requires
        call_ensures(recovery::run, (), step),
    ensures
        step matches ShellStep::Load { out, at, .. } && {
            &&& out@ == "\n=== recovery mode ===\n"@
                + "type 'help' for commands. all input is line-buffered.\n"@
            &&& at == 0xD000
        },
{
}

/// Nothing is staged: all fields are NULs.
pub open spec fn is_blank_state(st: StateView) -> bool {
    &&& filled_with(st.board_id, Seq::empty(), 32)
    &&& filled_with(st.house_id, Seq::empty(), 32)
    &&& filled_with(st.house_token, Seq::empty(), 192)
    &&& !st.dirty
    &&& !st.decoded_ok
}

/// The shell starts from the identity that was loaded, or from blank fields where
/// there is none; then it says so.
pub proof fn law_shell_starts_from_the_identity(
    shell: ShellLoad,
    loaded: Option<Identity>,
    step: ShellStep,
)
    requires
        call_ensures(ShellLoad::resume, (shell, loaded), step),
    ensures
        loaded matches Some(id) ==> waits(
            step,
            Seq::empty(),
            (StateView {
                board_id: id.board_id@,
                house_id: id.house_id@,
                house_token: id.house_token@,
                dirty: false,
                decoded_ok: true,
            }),
        ),
        loaded is None ==> (step matches ShellStep::ReadKey { out, next } && {
            &&& out@
                == "note: existing identity partition unreadable / blank — staging from empty\n"@
                + "recovery> "@
            &&& next@.1.len() == 0
            &&& is_blank_state(next@.0)
        }),
{
}

/// A state starts from an identity as it is, or blank.
pub proof fn law_state_starts_from_the_identity(
    loaded: Option<Identity>,
    st: State,
    blank: State,
)
    requires
        call_ensures(State::from_flash, (loaded,), st),
        call_ensures(State::blank, (), blank),
    ensures
        loaded matches Some(id) ==> st@.board_id == id.board_id@ && st@.house_id == id.house_id@
            && st@.house_token == id.house_token@ && !st@.dirty && st@.decoded_ok,
        loaded is None ==> is_blank_state(st@),
        is_blank_state(blank@),
{
}

/// Once the identity is encoded, the sector at `0xD000` is erased first; what will
/// be written is the encoding and NULs up to the length that is asked for. Where
/// it could not be encoded, the shell goes on with what is staged.
pub proof fn law_encoding_is_kept(
    shell: ShellEncode,
    encoded: Result<Vec<u8>, String>,
    aligned_len: usize,
    step: ShellStep,
)
    requires
        aligned_len % 4 == 0,
        encoded matches Ok(blob) ==> blob@.len() <= aligned_len,
        call_ensures(ShellEncode::resume, (shell, encoded, aligned_len), step),
    ensures
        encoded matches Ok(blob) ==> {
            &&& step matches ShellStep::Erase { out, at, next }
            &&& out@ == "erasing sector at 0x"@ + hexed(0xD000, 5) + " …\n"@
            &&& at == 0xD000
            &&& next@.0 == shell@
            &&& next@.1.len() == aligned_len
            &&& forall|i: int|
                0 <= i < aligned_len ==> #[trigger] next@.1[i] == if i < blob@.len() {
                    blob@[i]
                } else {
                    0
                }
        },
        encoded matches Err(e) ==> waits(step, "encode failed: "@ + e@ + "\n"@, shell@),
{
    lemma_numbers();
}

/// Once the sector is erased, all that was kept is written at `0xD000`; where the
/// erase failed, nothing is written.
pub proof fn law_encoding_is_written(
    shell: ShellErase,
    erased: Result<(), FlashError>,
    step: ShellStep,
)
    requires
        call_ensures(ShellErase::resume, (shell, erased), step),
    ensures
        erased is Ok ==> (step matches ShellStep::Write { at, data, next } && {
            &&& at == 0xD000
            &&& data@ == shell@.1
            &&& next@ == shell@.0
        }),
        erased matches Err(e) ==> waits(step, "erase failed: "@ + flash_words(e) + "\n"@, shell@.0),
{
    lemma_numbers();
}

/// What was written at `0xD000` is read back from there; a write that failed
/// leaves the state as it was.
pub proof fn law_written_is_read_back(
    shell: ShellWrite,
    done: Result<(), FlashError>,
    step: ShellStep,
)
    requires
        call_ensures(ShellWrite::resume, (shell, done), step),
    ensures
        done is Ok ==> (step matches ShellStep::ReadBack { at, next } && {
            &&& at == 0xD000
            &&& next@ == shell@
        }),
        done matches Err(e) ==> waits(step, "write failed: "@ + flash_words(e) + "\n"@, shell@),
{
    lemma_numbers();
}

/// A commit is done once the identity was read back: it is shown, the token by its
/// length, and the state is clean with every field as it was. Until then the state
/// is what it was.
pub proof fn law_commit_cleans_once_read_back(
    shell: ShellReadBack,
    read: Result<ReadBack, String>,
    step: ShellStep,
)
    requires
        call_ensures(ShellReadBack::resume, (shell, read), step),
    ensures
        read matches Ok(id) ==> {
            &&& step matches ShellStep::ReadKey { out, next }
            &&& out@ == "commit OK — verified read-back:\n  board_id: \""@ + id.board_id@
                + "\"\n  house_id: \""@ + id.house_id@ + "\"\n  token_len: "@ + written(
                id.token_len as nat,
                10,
            ) + " bytes\n"@ + "recovery> "@
            &&& next@.1.len() == 0
            &&& !next@.0.dirty
            &&& next@.0.decoded_ok
            &&& next@.0.board_id == shell@.board_id
            &&& next@.0.house_id == shell@.house_id
            &&& next@.0.house_token == shell@.house_token
        },
        read matches Err(e) ==> waits(
            step,
            "commit wrote but verify failed: "@ + e@ + "\n"@,
            shell@,
        ),
{
    lemma_numbers();
}

/// A wipe that was done leaves nothing staged; one that failed leaves the state as
/// it was.
pub proof fn law_wipe_leaves_nothing(
    shell: ShellWipe,
    erased: Result<(), FlashError>,
    step: ShellStep,
)
    requires
        call_ensures(ShellWipe::resume, (shell, erased), step),
    ensures
        erased is Ok ==> (step matches ShellStep::ReadKey { out, next } && {
            &&& out@ == "wipe OK — partition is unprovisioned\n"@ + "recovery> "@
            &&& next@.1.len() == 0
            &&& is_blank_state(next@.0)
        }),
        erased matches Err(e) ==> waits(step, "wipe failed: "@ + flash_words(e) + "\n"@, shell@),
{
    lemma_numbers();
}

} // verus!
