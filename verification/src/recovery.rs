//! The recovery shell on the console: an installer looks at the identity
//! partition, stages a new identity, and commits or wipes it.
//!
//! ```text
//! info                 show the staged identity, the token by its length only
//! set board <id>       stage a new board id, at most 32 bytes
//! set house <id>       stage a new house id, at most 32 bytes
//! set token <token>    stage a new house token, at most 192 bytes
//! commit               erase the identity sector and write the staged identity
//! wipe                 erase the identity sector
//! reboot               say to power-cycle, and halt
//! help, ?              this menu
//! ```
//!
//! The shell is a step machine: each step carries what to print first, and then
//! asks for one key, or for one operation on the identity partition.
use vstd::prelude::*;
use vstd::string::*;
use vstd::utf8::*;
use crate::flash::{flash_error_text, push_flash_error, FlashError};
use crate::text::{
    before_nul, bool_text, dec, decode_or, decoded_or, hex, law_nul_len, push_bool, push_dec,
    push_hex, same_text, utf8,
};

verus! {

/// Where the identity partition begins. Fixed, so that a corrupt partition
/// table cannot lock the installer out.
pub const IDENTITY_PARTITION_OFFSET: u32 = 0xD000;

/// How many bytes a line can hold.
pub const LINE_BUF_LEN: usize = 256;

pub const BOARD_ID_LEN: usize = 32;

pub const HOUSE_ID_LEN: usize = 32;

pub const HOUSE_TOKEN_LEN: usize = 192;

/// Bytes as ASCII characters.
pub open spec fn ascii_text(b: Seq<u8>) -> Seq<char> {
    b.map_values(|x: u8| x as char)
}

/// A key that stands for itself.
pub open spec fn printable(key: u8) -> bool {
    0x20 <= key <= 0x7E
}

/// A key that ends the line.
pub open spec fn ends_line(key: u8) -> bool {
    key == 0x0D || key == 0x0A
}

/// A key that erases the last character.
pub open spec fn erases(key: u8) -> bool {
    key == 0x08 || key == 0x7F
}

/// The line after a key.
pub open spec fn line_after(line: Seq<u8>, key: u8) -> Seq<u8> {
    if erases(key) && line.len() > 0 {
        line.drop_last()
    } else if printable(key) && line.len() < LINE_BUF_LEN {
        line.push(key)
    } else {
        line
    }
}

/// What the console shows in answer to a key.
pub open spec fn echo_of(line: Seq<u8>, key: u8) -> Seq<char> {
    if ends_line(key) {
        "\n"@
    } else if erases(key) && line.len() > 0 {
        "\x08 \x08"@
    } else if printable(key) && line.len() < LINE_BUF_LEN {
        seq![key as char]
    } else {
        Seq::empty()
    }
}

/// The line that keys add up to.
pub open spec fn typed(keys: Seq<u8>) -> Seq<u8>
    decreases keys.len(),
{
    if keys.len() == 0 {
        Seq::empty()
    } else {
        line_after(typed(keys.drop_last()), keys.last())
    }
}

/// A line holds printable characters only, and not too many.
pub open spec fn good_line(line: Seq<u8>) -> bool {
    &&& line.len() <= LINE_BUF_LEN
    &&& forall|i: int| 0 <= i < line.len() ==> printable(#[trigger] line[i])
}

/// Whatever is typed, the line holds printable characters only, and not more
/// than fit.
pub proof fn law_typed_line_is_good(keys: Seq<u8>)
    ensures
        good_line(typed(keys)),
    decreases keys.len(),
{
    if keys.len() > 0 {
        law_typed_line_is_good(keys.drop_last());
    }
}

/// An erase takes back the last character that found room.
pub proof fn law_erase_undoes(keys: Seq<u8>, key: u8, erase: u8)
    requires
        printable(key),
        erases(erase),
        typed(keys).len() < LINE_BUF_LEN,
    ensures
        typed(keys.push(key).push(erase)) == typed(keys),
{
    reveal_with_fuel(typed, 3);
    let once = keys.push(key);
    let twice = once.push(erase);
    assert(twice.drop_last() =~= once);
    assert(once.drop_last() =~= keys);
    assert(typed(keys).push(key).drop_last() =~= typed(keys));
}

/// ASCII bytes are their own encoding.
proof fn lemma_ascii(b: Seq<u8>)
    requires
        forall|i: int| 0 <= i < b.len() ==> #[trigger] b[i] < 0x80,
    ensures
        is_ascii_chars(ascii_text(b)),
        encode_utf8(ascii_text(b)) == b,
        valid_utf8(b),
{
    let t = ascii_text(b);
    assert forall|i: int| 0 <= i < t.len() implies '\0' <= #[trigger] t[i] <= '\u{7f}' by {
        assert(b[i] < 0x80);
    }
    is_ascii_chars_encode_utf8(t);
    assert(encode_utf8(t) =~= b);
    encode_utf8_valid_utf8(t);
}

/// A line while it is typed.
pub struct Line {
    bytes: Vec<u8>,
}

impl View for Line {
    type V = Seq<u8>;

    closed spec fn view(&self) -> Seq<u8> {
        self.bytes@
    }
}

impl Line {
    #[verifier::type_invariant]
    spec fn wf(self) -> bool {
        good_line(self.bytes@)
    }

    pub fn new() -> (line: Self)
        ensures
            line@ == Seq::<u8>::empty(),
    {
        Line { bytes: Vec::new() }
    }

    /// Takes one key; gives the line after it, and what to show.
    pub fn key(self, key: u8) -> (r: (Line, String))
        ensures
            r.0@ == line_after(self@, key),
            r.1@ == echo_of(self@, key),
    {
        proof {
            use_type_invariant(&self);
        }
        let mut bytes = self.bytes;
        let mut echo = String::new();
        if key == 0x0D || key == 0x0A {
            echo.append("\n");
        } else if key == 0x08 || key == 0x7F {
            if bytes.len() > 0 {
                let _ = bytes.pop();
                echo.append("\x08 \x08");
            }
        } else if 0x20 <= key && key <= 0x7E {
            if bytes.len() < LINE_BUF_LEN {
                bytes.push(key);
                echo.push(key as char);
            }
        }
        (Line { bytes }, echo)
    }

    /// The line as text.
    pub fn text(&self) -> (s: &str)
        ensures
            s@ == ascii_text(self@),
            is_ascii(s),
    {
        proof {
            use_type_invariant(self);
            assert forall|i: int| 0 <= i < self.bytes@.len() implies #[trigger] self.bytes@[i]
                < 0x80 by {
                assert(printable(self.bytes@[i]));
            }
            lemma_ascii(self.bytes@);
            encode_utf8_decode_utf8(ascii_text(self.bytes@));
        }
        match utf8(self.bytes.as_slice()) {
            Some(s) => {
                proof {
                    encode_utf8_decode_utf8(s@);
                }
                s
            },
            None => "",
        }
    }
}

/// White space at the ends of a line.
pub open spec fn is_white(c: char) -> bool {
    c == ' ' || '\t' <= c <= '\r'
}

/// White space between words.
pub open spec fn is_blank(c: char) -> bool {
    c == ' ' || c == '\t' || c == '\n' || c == '\x0C' || c == '\r'
}

/// `s` from its first character that is no white space on.
pub open spec fn trim_start(s: Seq<char>) -> Seq<char>
    decreases s.len(),
{
    if s.len() > 0 && is_white(s[0]) {
        trim_start(s.skip(1))
    } else {
        s
    }
}

/// `s` up to its last character that is no white space.
pub open spec fn trim_end(s: Seq<char>) -> Seq<char>
    decreases s.len(),
{
    if s.len() > 0 && is_white(s.last()) {
        trim_end(s.drop_last())
    } else {
        s
    }
}

/// How long the first word of `s` is.
pub open spec fn word_len(s: Seq<char>) -> nat
    decreases s.len(),
{
    if s.len() == 0 || is_blank(s[0]) {
        0
    } else {
        1 + word_len(s.skip(1))
    }
}

/// The first word of `s`.
pub open spec fn first_word(s: Seq<char>) -> Seq<char> {
    s.take(word_len(s) as int)
}

/// What comes after the first word of `s` and the white space behind it.
pub open spec fn after_word(s: Seq<char>) -> Seq<char> {
    trim_start(s.skip(word_len(s) as int))
}

proof fn lemma_word_len(s: Seq<char>, n: nat)
    requires
        n <= s.len(),
        forall|i: int| 0 <= i < n ==> !is_blank(#[trigger] s[i]),
        n < s.len() ==> is_blank(s[n as int]),
    ensures
        word_len(s) == n,
    decreases n,
{
    if n > 0 {
        assert(!is_blank(s[0]));
        assert forall|i: int| 0 <= i < n - 1 implies !is_blank(#[trigger] s.skip(1)[i]) by {
            assert(!is_blank(s[i + 1]));
        }
        lemma_word_len(s.skip(1), (n - 1) as nat);
    }
}

fn without_leading_white(s: &str) -> (r: &str)
    requires
        is_ascii(s),
    ensures
        r@ == trim_start(s@),
        is_ascii(r),
        r@.len() <= s@.len(),
{
    let n = s.unicode_len();
    let mut i: usize = 0;
    assert(s@.skip(0) =~= s@);
    while i < n
        invariant
            i <= n,
            n == s@.len(),
            is_ascii(s),
            trim_start(s@) == trim_start(s@.skip(i as int)),
        ensures
            i <= n,
            i < n ==> !is_white(s@[i as int]),
            trim_start(s@) == trim_start(s@.skip(i as int)),
        decreases n - i,
    {
        let b = s.get_ascii(i);
        assert('\0' <= s@[i as int] <= '\u{7f}');
        if b != 0x20 && !(0x09 <= b && b <= 0x0D) {
            break;
        }
        i += 1;
        assert(s@.skip(i - 1).skip(1) =~= s@.skip(i as int));
    }
    assert(s@.skip(i as int) =~= s@.subrange(i as int, n as int));
    s.substring_ascii(i, n)
}

fn without_trailing_white(s: &str) -> (r: &str)
    requires
        is_ascii(s),
    ensures
        r@ == trim_end(s@),
        is_ascii(r),
{
    let mut n = s.unicode_len();
    assert(s@.take(n as int) =~= s@);
    while n > 0
        invariant
            n <= s@.len(),
            is_ascii(s),
            trim_end(s@) == trim_end(s@.take(n as int)),
        ensures
            n <= s@.len(),
            n > 0 ==> !is_white(s@[n - 1]),
            trim_end(s@) == trim_end(s@.take(n as int)),
        decreases n,
    {
        let b = s.get_ascii(n - 1);
        assert('\0' <= s@[n - 1] <= '\u{7f}');
        if b != 0x20 && !(0x09 <= b && b <= 0x0D) {
            break;
        }
        n -= 1;
        assert(s@.take(n + 1).drop_last() =~= s@.take(n as int));
    }
    assert(s@.take(n as int) =~= s@.subrange(0, n as int));
    s.substring_ascii(0, n)
}

/// Splits off the first word; gives it, and what comes after it.
fn split_word(s: &str) -> (r: (&str, &str))
    requires
        is_ascii(s),
    ensures
        r.0@ == first_word(s@),
        r.1@ == after_word(s@),
        is_ascii(r.0),
        is_ascii(r.1),
{
    let n = s.unicode_len();
    let mut i: usize = 0;
    while i < n
        invariant
            i <= n,
            n == s@.len(),
            is_ascii(s),
            forall|j: int| 0 <= j < i ==> !is_blank(#[trigger] s@[j]),
        ensures
            i <= n,
            forall|j: int| 0 <= j < i ==> !is_blank(#[trigger] s@[j]),
            i < n ==> is_blank(s@[i as int]),
        decreases n - i,
    {
        let b = s.get_ascii(i);
        assert('\0' <= s@[i as int] <= '\u{7f}');
        if b == 0x20 || b == 0x09 || b == 0x0A || b == 0x0C || b == 0x0D {
            break;
        }
        i += 1;
    }
    proof {
        lemma_word_len(s@, i as nat);
        assert(s@.take(i as int) =~= s@.subrange(0, i as int));
        assert(s@.skip(i as int) =~= s@.subrange(i as int, n as int));
    }
    (s.substring_ascii(0, i), without_leading_white(s.substring_ascii(i, n)))
}

/// The fields of an identity as they lie in flash, filled up with NULs.
pub struct Identity {
    pub board_id: [u8; BOARD_ID_LEN],
    pub house_id: [u8; HOUSE_ID_LEN],
    pub house_token: [u8; HOUSE_TOKEN_LEN],
}

/// What is staged.
pub struct State {
    pub board_id: [u8; BOARD_ID_LEN],
    pub house_id: [u8; HOUSE_ID_LEN],
    pub house_token: [u8; HOUSE_TOKEN_LEN],
    /// Whether a field was set since the last commit or wipe.
    pub dirty: bool,
    /// Whether the partition held an identity when it was last looked at.
    pub decoded_ok: bool,
}

/// What is staged, with fields as sequences.
#[verifier::ext_equal]
pub struct StateView {
    pub board_id: Seq<u8>,
    pub house_id: Seq<u8>,
    pub house_token: Seq<u8>,
    pub dirty: bool,
    pub decoded_ok: bool,
}

impl View for State {
    type V = StateView;

    open spec fn view(&self) -> StateView {
        StateView {
            board_id: self.board_id@,
            house_id: self.house_id@,
            house_token: self.house_token@,
            dirty: self.dirty,
            decoded_ok: self.decoded_ok,
        }
    }
}

/// `n` NULs.
pub open spec fn zeros(n: nat) -> Seq<u8> {
    Seq::new(n, |i: int| 0u8)
}

/// Nothing staged, nothing in flash.
pub open spec fn blank_state() -> StateView {
    StateView {
        board_id: zeros(BOARD_ID_LEN as nat),
        house_id: zeros(HOUSE_ID_LEN as nat),
        house_token: zeros(HOUSE_TOKEN_LEN as nat),
        dirty: false,
        decoded_ok: false,
    }
}

/// The state that a shell starts from.
pub open spec fn state_from(loaded: Option<Identity>) -> StateView {
    match loaded {
        Some(id) => StateView {
            board_id: id.board_id@,
            house_id: id.house_id@,
            house_token: id.house_token@,
            dirty: false,
            decoded_ok: true,
        },
        None => blank_state(),
    }
}

impl State {
    /// A state with nothing staged.
    pub fn blank() -> (st: State)
        ensures
            st@ == blank_state(),
    {
        let st = State {
            board_id: [0u8;32],
            house_id: [0u8;32],
            house_token: [0u8;192],
            dirty: false,
            decoded_ok: false,
        };
        assert(st@ =~= blank_state());
        st
    }

    /// The state that a shell starts from: what the partition holds, or blank.
    pub fn from_flash(loaded: Option<Identity>) -> (st: State)
        ensures
            st@ == state_from(loaded),
    {
        match loaded {
            Some(id) => State {
                board_id: id.board_id,
                house_id: id.house_id,
                house_token: id.house_token,
                dirty: false,
                decoded_ok: true,
            },
            None => State::blank(),
        }
    }
}

/// What a field of `cap` bytes becomes, or why the value does not go in.
pub open spec fn field_with(cap: nat, value: Seq<char>) -> Result<Seq<u8>, Seq<char>> {
    let bytes = encode_utf8(value);
    if bytes.len() > cap {
        Err("value too long"@)
    } else if bytes.contains(0) {
        Err("interior NUL not allowed"@)
    } else {
        Ok(bytes + zeros((cap - bytes.len()) as nat))
    }
}

/// Puts `value` into the field, and NULs behind it. A value that does not go
/// in leaves the field as it was.
pub fn copy_field<const N: usize>(dst: &mut [u8; N], value: &str) -> (r: Result<(), &'static str>)
    ensures
        match field_with(N as nat, value@) {
            Ok(bytes) => r is Ok && final(dst)@ == bytes,
            Err(e) => r is Err && r->Err_0@ == e && *final(dst) == *old(dst),
        },
{
    let bytes = value.as_bytes();
    if bytes.len() > N {
        return Err("value too long");
    }
    let mut i: usize = 0;
    while i < bytes.len()
        invariant
            i <= bytes@.len() <= N,
            bytes@ == encode_utf8(value@),
            *dst == *old(dst),
            forall|j: int| 0 <= j < i ==> bytes@[j] != 0,
        decreases bytes@.len() - i,
    {
        if bytes[i] == 0 {
            assert(bytes@.contains(0));
            return Err("interior NUL not allowed");
        }
        i += 1;
    }
    let mut k: usize = 0;
    while k < N
        invariant
            k <= N,
            bytes@.len() <= N,
            forall|j: int|
                0 <= j < k ==> #[trigger] dst@[j] == if j < bytes@.len() {
                    bytes@[j]
                } else {
                    0
                },
        decreases N - k,
    {
        dst[k] = if k < bytes.len() { bytes[k] } else { 0 };
        k += 1;
    }
    assert(dst@ =~= bytes@ + zeros((N - bytes@.len()) as nat));
    Ok(())
}

/// What the shell shows of a field.
pub open spec fn shown(field: Seq<u8>) -> Seq<char> {
    decoded_or(before_nul(field), "<non-utf8>"@)
}

/// The text of a field up to its first NUL.
pub fn trim_nul(buf: &[u8]) -> (s: &str)
    ensures
        s@ == shown(buf@),
{
    decode_or(buf, "<non-utf8>")
}

/// What a field was set to is read back from it, and is all that is in it.
pub proof fn law_field_round_trip(cap: nat, value: Seq<char>)
    ensures
        field_with(cap, value) matches Ok(field) ==> {
            &&& field.len() == cap
            &&& before_nul(field) == encode_utf8(value)
            &&& shown(field) == value
            &&& forall|i: int| encode_utf8(value).len() <= i < cap ==> #[trigger] field[i] == 0
        },
{
    let bytes = encode_utf8(value);
    if bytes.len() <= cap && !bytes.contains(0) {
        let field = bytes + zeros((cap - bytes.len()) as nat);
        assert forall|i: int| 0 <= i < bytes.len() implies field[i] != 0 by {
            assert(bytes.contains(bytes[i]));
        }
        law_nul_len(field, bytes.len());
        assert(before_nul(field) =~= bytes);
        encode_utf8_valid_utf8(value);
        encode_utf8_decode_utf8(value);
    }
}

/// How many bytes a text takes.
pub open spec fn byte_len(text: Seq<char>) -> nat {
    encode_utf8(text).len()
}

/// The answer to `info`. Of the token, it shows the length only.
pub open spec fn info_text(st: StateView) -> Seq<char> {
    "  source:    "@ + (if st.decoded_ok {
        "flash (decoded OK)"@
    } else {
        "flash unreadable / unprovisioned (staging from blank)"@
    }) + "\n  board_id:  \""@ + shown(st.board_id) + "\"\n  house_id:  \""@ + shown(st.house_id)
        + "\"\n  token_len: "@ + dec(byte_len(shown(st.house_token)))
        + " bytes (redacted)\n  dirty:     "@ + bool_text(st.dirty) + "\n"@
}

fn push_info(out: &mut String, st: &State)
    ensures
        final(out)@ == old(out)@ + info_text(st@),
{
    out.append("  source:    ");
    if st.decoded_ok {
        out.append("flash (decoded OK)");
    } else {
        out.append("flash unreadable / unprovisioned (staging from blank)");
    }
    out.append("\n  board_id:  \"");
    out.append(trim_nul(st.board_id.as_slice()));
    out.append("\"\n  house_id:  \"");
    out.append(trim_nul(st.house_id.as_slice()));
    out.append("\"\n  token_len: ");
    push_dec(out, trim_nul(st.house_token.as_slice()).as_bytes().len() as u64);
    out.append(" bytes (redacted)\n  dirty:     ");
    push_bool(out, st.dirty);
    out.append("\n");
}

/// The token is kept secret: what `info` shows depends on no more of it than
/// the length of its text.
pub proof fn law_token_is_redacted(st: StateView, other: StateView)
    requires
        other == (StateView { house_token: other.house_token, ..st }),
        byte_len(shown(other.house_token)) == byte_len(shown(st.house_token)),
    ensures
        info_text(other) == info_text(st),
{
}

/// The answer to `help`.
pub open spec fn help_text() -> Seq<char> {
    "commands:\n"@ + "  info                       show staged identity (token redacted)\n"@
        + "  set board <id>             stage new board_id (≤ 32 bytes)\n"@
        + "  set house <id>             stage new house_id (≤ 32 bytes)\n"@
        + "  set token <token>          stage new house_token (≤ 192 bytes)\n"@
        + "  commit                     erase + write identity partition\n"@
        + "  wipe                       erase identity partition\n"@
        + "  reboot                     print power-cycle hint and halt\n"@
        + "  help                       this menu\n"@
}

fn push_help(out: &mut String)
    ensures
        final(out)@ == old(out)@ + help_text(),
{
    out.append("commands:\n");
    out.append("  info                       show staged identity (token redacted)\n");
    out.append("  set board <id>             stage new board_id (≤ 32 bytes)\n");
    out.append("  set house <id>             stage new house_id (≤ 32 bytes)\n");
    out.append("  set token <token>          stage new house_token (≤ 192 bytes)\n");
    out.append("  commit                     erase + write identity partition\n");
    out.append("  wipe                       erase identity partition\n");
    out.append("  reboot                     print power-cycle hint and halt\n");
    out.append("  help                       this menu\n");
}

/// The state after `set` with `rest` behind it, or why it stays as it is.
pub open spec fn set_state(st: StateView, rest: Seq<char>) -> Result<StateView, Seq<char>> {
    let field = first_word(trim_start(rest));
    let value = after_word(trim_start(rest));
    if field == "board"@ {
        match field_with(BOARD_ID_LEN as nat, value) {
            Ok(board_id) => Ok(StateView { board_id, dirty: true, ..st }),
            Err(e) => Err(e),
        }
    } else if field == "house"@ {
        match field_with(HOUSE_ID_LEN as nat, value) {
            Ok(house_id) => Ok(StateView { house_id, dirty: true, ..st }),
            Err(e) => Err(e),
        }
    } else if field == "token"@ {
        match field_with(HOUSE_TOKEN_LEN as nat, value) {
            Ok(house_token) => Ok(StateView { house_token, dirty: true, ..st }),
            Err(e) => Err(e),
        }
    } else if field.len() == 0 {
        Err("usage: set board|house|token <value>"@)
    } else {
        Err("unknown field (expected: board, house, token)"@)
    }
}

/// The state after `set`, whether it was taken or not.
pub open spec fn state_after_set(st: StateView, rest: Seq<char>) -> StateView {
    match set_state(st, rest) {
        Ok(next) => next,
        Err(_) => st,
    }
}

/// The answer to `set`.
pub open spec fn set_text(st: StateView, rest: Seq<char>) -> Seq<char> {
    match set_state(st, rest) {
        Ok(_) => "  staged ("@ + dec(byte_len(after_word(trim_start(rest)))) + " bytes)\n"@,
        Err(e) => "error: "@ + e + "\n"@,
    }
}

fn push_set(out: &mut String, st: &mut State, rest: &str)
    requires
        is_ascii(rest),
    ensures
        final(out)@ == old(out)@ + set_text(old(st)@, rest@),
        final(st)@ == state_after_set(old(st)@, rest@),
{
    let trimmed = without_leading_white(rest);
    let (field, value) = split_word(trimmed);
    let res = if same_text(field, "board") {
        copy_field(&mut st.board_id, value)
    } else if same_text(field, "house") {
        copy_field(&mut st.house_id, value)
    } else if same_text(field, "token") {
        copy_field(&mut st.house_token, value)
    } else if field.is_empty() {
        Err("usage: set board|house|token <value>")
    } else {
        Err("unknown field (expected: board, house, token)")
    };
    match res {
        Ok(()) => {
            st.dirty = true;
            out.append("  staged (");
            push_dec(out, value.as_bytes().len() as u64);
            out.append(" bytes)\n");
        },
        Err(e) => {
            out.append("error: ");
            out.append(e);
            out.append("\n");
        },
    }
}

/// What was staged is what a commit will encode: after a `set` that was taken,
/// the named field shows the value, the other fields are as they were, and the
/// state is dirty.
pub proof fn law_staged_value_is_shown(st: StateView, rest: Seq<char>)
    ensures
        set_state(st, rest) matches Ok(next) ==> {
            let field = first_word(trim_start(rest));
            let value = after_word(trim_start(rest));
            &&& next.dirty
            &&& next.decoded_ok == st.decoded_ok
            &&& field == "board"@ || field == "house"@ || field == "token"@
            &&& shown(next.board_id) == if field == "board"@ {
                value
            } else {
                shown(st.board_id)
            }
            &&& shown(next.house_id) == if field == "house"@ {
                value
            } else {
                shown(st.house_id)
            }
            &&& shown(next.house_token) == if field == "token"@ {
                value
            } else {
                shown(st.house_token)
            }
        },
{
    reveal_strlit("board");
    reveal_strlit("house");
    reveal_strlit("token");
    let value = after_word(trim_start(rest));
    law_field_round_trip(BOARD_ID_LEN as nat, value);
    law_field_round_trip(HOUSE_ID_LEN as nat, value);
    law_field_round_trip(HOUSE_TOKEN_LEN as nat, value);
    assert("board"@[0] == 'b' && "house"@[0] == 'h' && "token"@[0] == 't');
}

/// A `set` that is not taken changes nothing, and no `set` makes a dirty state
/// clean.
pub proof fn law_set_never_cleans(st: StateView, rest: Seq<char>)
    ensures
        set_state(st, rest) is Err ==> state_after_set(st, rest) == st,
        state_after_set(st, rest).dirty <==> st.dirty || set_state(st, rest) is Ok,
{
}

/// What a line asks for.
#[verifier::ext_equal]
pub enum Request {
    Nothing,
    Info,
    Help,
    Stage(Seq<char>),
    Commit,
    Wipe,
    Reboot,
    Unknown(Seq<char>),
}

/// What a line asks for.
pub open spec fn request_of(line: Seq<char>) -> Request {
    let cmd = trim_end(trim_start(line));
    let head = first_word(cmd);
    if cmd.len() == 0 {
        Request::Nothing
    } else if head == "info"@ {
        Request::Info
    } else if head == "help"@ || head == "?"@ {
        Request::Help
    } else if head == "set"@ {
        Request::Stage(after_word(cmd))
    } else if head == "commit"@ {
        Request::Commit
    } else if head == "wipe"@ {
        Request::Wipe
    } else if head == "reboot"@ {
        Request::Reboot
    } else {
        Request::Unknown(head)
    }
}

/// What the identity partition was found to hold after a commit.
pub struct ReadBack {
    pub board_id: String,
    pub house_id: String,
    pub token_len: usize,
}

/// The next step of the shell. A step that has `out` prints it first.
#[allow(inconsistent_fields)]
pub enum ShellStep {
    /// Load the identity at `at`, and resume `next` with it.
    Load { out: String, at: u32, next: ShellLoad },
    /// Wait for a key, and resume `next` with it.
    ReadKey { out: String, next: ShellKey },
    /// Encode these fields, and resume `next` with the blob.
    Encode { out: String, board: String, house: String, token: String, next: ShellEncode },
    /// Erase the sector at `at` before a write, and resume `next`.
    Erase { out: String, at: u32, next: ShellErase },
    /// Write `data` at `at`, and resume `next`.
    Write { at: u32, data: Vec<u8>, next: ShellWrite },
    /// Load the identity at `at` to verify it, and resume `next` with it.
    ReadBack { at: u32, next: ShellReadBack },
    /// Erase the sector at `at` for good, and resume `next`.
    Wipe { out: String, at: u32, next: ShellWipe },
    /// Drain the console, and halt.
    Halt { out: String },
}

/// A shell that waits for the identity.
pub struct ShellLoad {}

/// A shell that waits for a key.
pub struct ShellKey {
    state: State,
    line: Line,
}

/// A shell that waits for the staged identity to be encoded.
pub struct ShellEncode {
    state: State,
}

/// A shell that waits for the sector to be erased before it writes.
pub struct ShellErase {
    state: State,
    data: Vec<u8>,
}

/// A shell that waits for the identity to be written.
pub struct ShellWrite {
    state: State,
}

/// A shell that waits for what was written.
pub struct ShellReadBack {
    state: State,
}

/// A shell that waits for the sector to be wiped.
pub struct ShellWipe {
    state: State,
}

impl View for ShellKey {
    type V = (StateView, Seq<u8>);

    closed spec fn view(&self) -> (StateView, Seq<u8>) {
        (self.state@, self.line@)
    }
}

impl View for ShellEncode {
    type V = StateView;

    closed spec fn view(&self) -> StateView {
        self.state@
    }
}

impl View for ShellErase {
    type V = (StateView, Seq<u8>);

    closed spec fn view(&self) -> (StateView, Seq<u8>) {
        (self.state@, self.data@)
    }
}

impl View for ShellWrite {
    type V = StateView;

    closed spec fn view(&self) -> StateView {
        self.state@
    }
}

impl View for ShellReadBack {
    type V = StateView;

    closed spec fn view(&self) -> StateView {
        self.state@
    }
}

impl View for ShellWipe {
    type V = StateView;

    closed spec fn view(&self) -> StateView {
        self.state@
    }
}

/// `step` prints `text` and the prompt, and waits for a new line.
pub open spec fn prompts(step: ShellStep, text: Seq<char>, st: StateView) -> bool {
    &&& step matches ShellStep::ReadKey { out, next }
    &&& out@ == text + "recovery> "@
    &&& next@ == (st, Seq::<u8>::empty())
}

/// `step` prints `text` and asks for the staged identity to be encoded.
pub open spec fn encodes(step: ShellStep, text: Seq<char>, st: StateView) -> bool {
    &&& step matches ShellStep::Encode { out, board, house, token, next }
    &&& out@ == text
    &&& board@ == shown(st.board_id)
    &&& house@ == shown(st.house_id)
    &&& token@ == shown(st.house_token)
    &&& next@ == st
}

/// `step` prints `text` and asks for the identity sector to be wiped.
pub open spec fn wipes(step: ShellStep, text: Seq<char>, st: StateView) -> bool {
    &&& step matches ShellStep::Wipe { out, at, next }
    &&& out@ == text + "wiping sector at 0x"@ + hex(IDENTITY_PARTITION_OFFSET as nat, 5) + " …\n"@
    &&& at == IDENTITY_PARTITION_OFFSET
    &&& next@ == st
}

/// `step` answers `request`, with `text` printed first.
pub open spec fn answers(
    step: ShellStep,
    text: Seq<char>,
    st: StateView,
    request: Request,
) -> bool {
    match request {
        Request::Nothing => prompts(step, text, st),
        Request::Info => prompts(step, text + info_text(st), st),
        Request::Help => prompts(step, text + help_text(), st),
        Request::Stage(rest) => prompts(
            step,
            text + set_text(st, rest),
            state_after_set(st, rest),
        ),
        Request::Commit => encodes(step, text, st),
        Request::Wipe => wipes(step, text, st),
        Request::Reboot => step matches ShellStep::Halt { out } && out@ == text
            + "power-cycle the board to apply changes.\n"@,
        Request::Unknown(head) => prompts(
            step,
            text + "unknown command: '"@ + head + "' (try 'help')\n"@,
            st,
        ),
    }
}

/// What a step prints.
pub open spec fn printed(step: ShellStep) -> Seq<char> {
    match step {
        ShellStep::Load { out, .. } => out@,
        ShellStep::ReadKey { out, .. } => out@,
        ShellStep::Encode { out, .. } => out@,
        ShellStep::Erase { out, .. } => out@,
        ShellStep::Write { .. } => Seq::empty(),
        ShellStep::ReadBack { .. } => Seq::empty(),
        ShellStep::Wipe { out, .. } => out@,
        ShellStep::Halt { out } => out@,
    }
}

/// What is staged at a step, if the shell goes on from it.
pub open spec fn staged(step: ShellStep) -> Option<StateView> {
    match step {
        ShellStep::Load { .. } => None,
        ShellStep::ReadKey { next, .. } => Some(next@.0),
        ShellStep::Encode { next, .. } => Some(next@),
        ShellStep::Erase { next, .. } => Some(next@.0),
        ShellStep::Write { next, .. } => Some(next@),
        ShellStep::ReadBack { next, .. } => Some(next@),
        ShellStep::Wipe { next, .. } => Some(next@),
        ShellStep::Halt { .. } => None,
    }
}

/// No command has the token printed: two states that differ in the token only,
/// and not in its length, get the same answer to every line.
pub proof fn law_token_stays_secret(
    step: ShellStep,
    other_step: ShellStep,
    text: Seq<char>,
    st: StateView,
    other: StateView,
    request: Request,
)
    requires
        other == (StateView { house_token: other.house_token, ..st }),
        byte_len(shown(other.house_token)) == byte_len(shown(st.house_token)),
        answers(step, text, st, request),
        answers(other_step, text, other, request),
    ensures
        printed(step) == printed(other_step),
{
}

/// No command makes a dirty state clean, and none but `set` changes what is
/// staged: that takes a commit that was read back, or a wipe that was done.
pub proof fn law_dirty_until_done(
    step: ShellStep,
    text: Seq<char>,
    st: StateView,
    request: Request,
)
    requires
        answers(step, text, st, request),
    ensures
        staged(step) matches Some(next) ==> {
            &&& st.dirty ==> next.dirty
            &&& !(request is Stage) ==> next == st
        },
        staged(step) is None <==> request is Reboot,
{
}

fn prompt(text: String, state: State) -> (step: ShellStep)
    ensures
        prompts(step, text@, state@),
{
    let mut out = text;
    out.append("recovery> ");
    ShellStep::ReadKey { out, next: ShellKey { state, line: Line::new() } }
}

fn answer(text: String, state: State, line: &str) -> (step: ShellStep)
    requires
        is_ascii(line),
    ensures
        answers(step, text@, state@, request_of(line@)),
{
    let mut out = text;
    let mut state = state;
    let cmd = without_trailing_white(without_leading_white(line));
    if cmd.is_empty() {
        return prompt(out, state);
    }
    let (head, rest) = split_word(cmd);
    if same_text(head, "info") {
        push_info(&mut out, &state);
        prompt(out, state)
    } else if same_text(head, "help") || same_text(head, "?") {
        push_help(&mut out);
        prompt(out, state)
    } else if same_text(head, "set") {
        push_set(&mut out, &mut state, rest);
        prompt(out, state)
    } else if same_text(head, "commit") {
        ShellStep::Encode {
            out,
            board: trim_nul(state.board_id.as_slice()).to_owned(),
            house: trim_nul(state.house_id.as_slice()).to_owned(),
            token: trim_nul(state.house_token.as_slice()).to_owned(),
            next: ShellEncode { state },
        }
    } else if same_text(head, "wipe") {
        out.append("wiping sector at 0x");
        push_hex(&mut out, IDENTITY_PARTITION_OFFSET as u64, 5);
        out.append(" …\n");
        ShellStep::Wipe { out, at: IDENTITY_PARTITION_OFFSET, next: ShellWipe { state } }
    } else if same_text(head, "reboot") {
        out.append("power-cycle the board to apply changes.\n");
        ShellStep::Halt { out }
    } else {
        out.append("unknown command: '");
        out.append(head);
        out.append("' (try 'help')\n");
        prompt(out, state)
    }
}

/// Enters the shell. It is never left: it ends in a halt, or in a reset from
/// outside.
pub fn run() -> (step: ShellStep)
    ensures
        step matches ShellStep::Load { out, at, .. } && {
            &&& out@ == "\n=== recovery mode ===\n"@
                + "type 'help' for commands. all input is line-buffered.\n"@
            &&& at == IDENTITY_PARTITION_OFFSET
        },
{
    let mut out = String::new();
    out.append("\n=== recovery mode ===\n");
    out.append("type 'help' for commands. all input is line-buffered.\n");
    ShellStep::Load { out, at: IDENTITY_PARTITION_OFFSET, next: ShellLoad {  } }
}

impl ShellLoad {
    /// Takes the identity, if the partition holds one.
    pub fn resume(self, loaded: Option<Identity>) -> (step: ShellStep)
        ensures
            prompts(
                step,
                if loaded is Some {
                    Seq::empty()
                } else {
                    "note: existing identity partition unreadable / blank — staging from empty\n"@
                },
                state_from(loaded),
            ),
    {
        let state = State::from_flash(loaded);
        let mut out = String::new();
        if !state.decoded_ok {
            out.append(
                "note: existing identity partition unreadable / blank — staging from empty\n",
            );
        }
        prompt(out, state)
    }
}

impl ShellKey {
    /// Takes a key. One that ends the line has the line answered.
    pub fn resume(self, key: u8) -> (step: ShellStep)
        ensures
            if ends_line(key) {
                answers(step, "\n"@, self@.0, request_of(ascii_text(self@.1)))
            } else {
                step matches ShellStep::ReadKey { out, next } && {
                    &&& out@ == echo_of(self@.1, key)
                    &&& next@ == (self@.0, line_after(self@.1, key))
                }
            },
    {
        let ShellKey { state, line } = self;
        let (line, echo) = line.key(key);
        if key == 0x0D || key == 0x0A {
            answer(echo, state, line.text())
        } else {
            ShellStep::ReadKey { out: echo, next: ShellKey { state, line } }
        }
    }
}

/// A blob as it is written: with NULs behind it.
pub open spec fn padded(blob: Seq<u8>, aligned_len: nat) -> Seq<u8> {
    blob + zeros((aligned_len - blob.len()) as nat)
}

impl ShellEncode {
    /// Takes the encoded identity, or why there is none. It will be written
    /// with NULs behind it up to `aligned_len`, a whole number of words.
    pub fn resume(self, encoded: Result<Vec<u8>, String>, aligned_len: usize) -> (step: ShellStep)
        requires
            aligned_len % 4 == 0,
            encoded matches Ok(blob) ==> blob@.len() <= aligned_len,
        ensures
            match encoded {
                Ok(blob) => step matches ShellStep::Erase { out, at, next } && {
                    &&& out@ == "erasing sector at 0x"@ + hex(
                        IDENTITY_PARTITION_OFFSET as nat,
                        5,
                    ) + " …\n"@
                    &&& at == IDENTITY_PARTITION_OFFSET
                    &&& next@ == (self@, padded(blob@, aligned_len as nat))
                },
                Err(e) => prompts(step, "encode failed: "@ + e@ + "\n"@, self@),
            },
    {
        let mut out = String::new();
        let blob = match encoded {
            Ok(blob) => blob,
            Err(e) => {
                out.append("encode failed: ");
                out.append(e.as_str());
                out.append("\n");
                return prompt(out, self.state);
            },
        };
        out.append("erasing sector at 0x");
        push_hex(&mut out, IDENTITY_PARTITION_OFFSET as u64, 5);
        out.append(" …\n");
        let ghost bytes = blob@;
        let mut data = blob;
        while data.len() < aligned_len
            invariant
                bytes.len() <= data@.len() <= aligned_len,
                data@ == padded(bytes, data@.len()),
            decreases aligned_len - data@.len(),
        {
            let ghost before = data@;
            data.push(0);
            assert(data@ =~= padded(bytes, before.len() + 1));
        }
        ShellStep::Erase {
            out,
            at: IDENTITY_PARTITION_OFFSET,
            next: ShellErase { state: self.state, data },
        }
    }
}

impl ShellErase {
    /// Takes what came of the erase.
    pub fn resume(self, erased: Result<(), FlashError>) -> (step: ShellStep)
        ensures
            match erased {
                Ok(()) => step matches ShellStep::Write { at, data, next } && {
                    &&& at == IDENTITY_PARTITION_OFFSET
                    &&& data@ == self@.1
                    &&& next@ == self@.0
                },
                Err(e) => prompts(
                    step,
                    "erase failed: "@ + flash_error_text(e) + "\n"@,
                    self@.0,
                ),
            },
    {
        match erased {
            Ok(()) => ShellStep::Write {
                at: IDENTITY_PARTITION_OFFSET,
                data: self.data,
                next: ShellWrite { state: self.state },
            },
            Err(e) => {
                let mut out = String::new();
                out.append("erase failed: ");
                push_flash_error(&mut out, e);
                out.append("\n");
                prompt(out, self.state)
            },
        }
    }
}

impl ShellWrite {
    /// Takes what came of the write. What was written is read back.
    pub fn resume(self, written: Result<(), FlashError>) -> (step: ShellStep)
        ensures
            match written {
                Ok(()) => step matches ShellStep::ReadBack { at, next } && {
                    &&& at == IDENTITY_PARTITION_OFFSET
                    &&& next@ == self@
                },
                Err(e) => prompts(
                    step,
                    "write failed: "@ + flash_error_text(e) + "\n"@,
                    self@,
                ),
            },
    {
        match written {
            Ok(()) => ShellStep::ReadBack {
                at: IDENTITY_PARTITION_OFFSET,
                next: ShellReadBack { state: self.state },
            },
            Err(e) => {
                let mut out = String::new();
                out.append("write failed: ");
                push_flash_error(&mut out, e);
                out.append("\n");
                prompt(out, self.state)
            },
        }
    }
}

/// The answer to a commit that was read back.
pub open spec fn committed_text(id: ReadBack) -> Seq<char> {
    "commit OK — verified read-back:\n  board_id: \""@ + id.board_id@ + "\"\n  house_id: \""@
        + id.house_id@ + "\"\n  token_len: "@ + dec(id.token_len as nat) + " bytes\n"@
}

impl ShellReadBack {
    /// Takes what the partition now holds, or why it holds nothing. Only an
    /// identity that was read back makes the staged one clean.
    pub fn resume(self, read: Result<ReadBack, String>) -> (step: ShellStep)
        ensures
            match read {
                Ok(id) => prompts(
                    step,
                    committed_text(id),
                    StateView { dirty: false, decoded_ok: true, ..self@ },
                ),
                Err(e) => prompts(
                    step,
                    "commit wrote but verify failed: "@ + e@ + "\n"@,
                    self@,
                ),
            },
    {
        let mut out = String::new();
        let mut state = self.state;
        match read {
            Ok(id) => {
                out.append("commit OK — verified read-back:\n  board_id: \"");
                out.append(id.board_id.as_str());
                out.append("\"\n  house_id: \"");
                out.append(id.house_id.as_str());
                out.append("\"\n  token_len: ");
                push_dec(&mut out, id.token_len as u64);
                out.append(" bytes\n");
                state.dirty = false;
                state.decoded_ok = true;
            },
            Err(e) => {
                out.append("commit wrote but verify failed: ");
                out.append(e.as_str());
                out.append("\n");
            },
        }
        prompt(out, state)
    }
}

impl ShellWipe {
    /// Takes what came of the wipe. Once it is done, nothing is staged.
    pub fn resume(self, erased: Result<(), FlashError>) -> (step: ShellStep)
        ensures
            match erased {
                Ok(()) => prompts(
                    step,
                    "wipe OK — partition is unprovisioned\n"@,
                    blank_state(),
                ),
                Err(e) => prompts(
                    step,
                    "wipe failed: "@ + flash_error_text(e) + "\n"@,
                    self@,
                ),
            },
    {
        let mut out = String::new();
        match erased {
            Ok(()) => {
                out.append("wipe OK — partition is unprovisioned\n");
                prompt(out, State::blank())
            },
            Err(e) => {
                out.append("wipe failed: ");
                push_flash_error(&mut out, e);
                out.append("\n");
                prompt(out, self.state)
            },
        }
    }
}

} // verus!
