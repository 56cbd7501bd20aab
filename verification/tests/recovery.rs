use mini_bootloader::flash::FlashError;
use mini_bootloader::recovery;
use mini_bootloader::recovery::{Identity, Line, ReadBack, ShellStep, State};

/// A console session on a simulated identity partition.
struct Session {
    step: Option<ShellStep>,
    identity: Option<[String; 3]>,
    written: Vec<Vec<u8>>,
    encode_fails: bool,
    erase: Result<(), FlashError>,
    write: Result<(), FlashError>,
    read_back_fails: bool,
    halted: bool,
}

fn field<const N: usize>(s: &str) -> [u8; N] {
    let mut b = [0u8; N];
    b[..s.len()].copy_from_slice(s.as_bytes());
    b
}

impl Session {
    fn new(identity: Option<[&str; 3]>) -> (Session, String) {
        let mut s = Session {
            step: Some(recovery::run()),
            identity: identity.map(|f| f.map(String::from)),
            written: Vec::new(),
            encode_fails: false,
            erase: Ok(()),
            write: Ok(()),
            read_back_fails: false,
            halted: false,
        };
        let banner = s.settle();
        (s, banner)
    }

    /// Performs steps until a key is wanted; gives what was printed.
    fn settle(&mut self) -> String {
        let mut printed = String::new();
        let mut staged = None;
        loop {
            let step = self.step.take().unwrap();
            let next = match step {
                ShellStep::Load { out, at, next } => {
                    assert_eq!(at, 0xD000);
                    printed.push_str(&out);
                    next.resume(self.identity.as_ref().map(|f| Identity {
                        board_id: field(&f[0]),
                        house_id: field(&f[1]),
                        house_token: field(&f[2]),
                    }))
                }
                ShellStep::ReadKey { out, next } => {
                    printed.push_str(&out);
                    self.step = Some(ShellStep::ReadKey { out: String::new(), next });
                    return printed;
                }
                ShellStep::Encode { out, board, house, token, next } => {
                    printed.push_str(&out);
                    if self.encode_fails {
                        next.resume(Err("too wide".to_string()), 8)
                    } else {
                        let blob = format!("{}|{}|{}", board, house, token).into_bytes();
                        staged = Some([board, house, token]);
                        let aligned = (blob.len() + 3) / 4 * 4;
                        next.resume(Ok(blob), aligned)
                    }
                }
                ShellStep::Erase { out, at, next } => {
                    assert_eq!(at, 0xD000);
                    printed.push_str(&out);
                    if self.erase.is_ok() {
                        self.identity = None;
                    }
                    next.resume(self.erase)
                }
                ShellStep::Write { at, data, next } => {
                    assert_eq!(at, 0xD000);
                    if self.write.is_ok() {
                        self.identity = staged.take();
                        self.written.push(data);
                    }
                    next.resume(self.write)
                }
                ShellStep::ReadBack { at, next } => {
                    assert_eq!(at, 0xD000);
                    match &self.identity {
                        Some([board, house, token]) if !self.read_back_fails => {
                            next.resume(Ok(ReadBack {
                                board_id: board.clone(),
                                house_id: house.clone(),
                                token_len: token.len(),
                            }))
                        }
                        _ => next.resume(Err("bad magic".to_string())),
                    }
                }
                ShellStep::Wipe { out, at, next } => {
                    assert_eq!(at, 0xD000);
                    printed.push_str(&out);
                    if self.erase.is_ok() {
                        self.identity = None;
                    }
                    next.resume(self.erase)
                }
                ShellStep::Halt { out } => {
                    printed.push_str(&out);
                    self.halted = true;
                    return printed;
                }
            };
            self.step = Some(next);
        }
    }

    fn keys(&mut self, keys: &[u8]) -> String {
        let mut printed = String::new();
        for key in keys {
            match self.step.take() {
                Some(ShellStep::ReadKey { next, .. }) => self.step = Some(next.resume(*key)),
                _ => panic!("no key was wanted"),
            }
            printed.push_str(&self.settle());
        }
        printed
    }

    /// Types a line; gives what is printed between its echo and the prompt.
    fn line(&mut self, line: &str) -> String {
        let echo = self.keys(line.as_bytes());
        assert_eq!(echo, line);
        let out = self.keys(b"\r");
        let out = out.strip_prefix('\n').unwrap();
        if self.halted {
            out.to_string()
        } else {
            out.strip_suffix("recovery> ").unwrap().to_string()
        }
    }
}

const BANNER: &str =
    "\n=== recovery mode ===\ntype 'help' for commands. all input is line-buffered.\n";

#[test]
fn shell_greets_and_loads_what_is_there() {
    let (mut s, banner) = Session::new(Some(["board-1", "house-1", "secret"]));
    assert_eq!(banner, format!("{}recovery> ", BANNER));
    assert_eq!(
        s.line("info"),
        "  source:    flash (decoded OK)\n  board_id:  \"board-1\"\n  house_id:  \"house-1\"\n  \
         token_len: 6 bytes (redacted)\n  dirty:     false\n"
    );
}

#[test]
fn shell_starts_blank_without_an_identity() {
    let (mut s, banner) = Session::new(None);
    assert_eq!(
        banner,
        format!(
            "{}note: existing identity partition unreadable / blank — staging from empty\n\
             recovery> ",
            BANNER
        )
    );
    assert_eq!(
        s.line("info"),
        "  source:    flash unreadable / unprovisioned (staging from blank)\n  board_id:  \"\"\n  \
         house_id:  \"\"\n  token_len: 0 bytes (redacted)\n  dirty:     false\n"
    );
}

#[test]
fn help_lists_the_commands() {
    let (mut s, _) = Session::new(None);
    let expected = "commands:
  info                       show staged identity (token redacted)
  set board <id>             stage new board_id (≤ 32 bytes)
  set house <id>             stage new house_id (≤ 32 bytes)
  set token <token>          stage new house_token (≤ 192 bytes)
  commit                     erase + write identity partition
  wipe                       erase identity partition
  reboot                     print power-cycle hint and halt
  help                       this menu
";
    assert_eq!(s.line("help"), expected);
    assert_eq!(s.line("?"), expected);
}

#[test]
fn set_stages_and_commit_writes() {
    let (mut s, _) = Session::new(None);
    assert_eq!(s.line("set board b1"), "  staged (2 bytes)\n");
    assert_eq!(s.line("  set   house   my house  "), "  staged (8 bytes)\n");
    assert_eq!(s.line("set token t.o+k_en"), "  staged (8 bytes)\n");
    assert!(s.line("info").contains("dirty:     true"));
    assert_eq!(
        s.line("commit"),
        "erasing sector at 0x0D000 …\ncommit OK — verified read-back:\n  board_id: \"b1\"\n  \
         house_id: \"my house\"\n  token_len: 8 bytes\n"
    );
    // "b1|my house|t.o+k_en" fills five words exactly.
    assert_eq!(s.written, vec![b"b1|my house|t.o+k_en".to_vec()]);
    let info = s.line("info");
    assert!(info.contains("flash (decoded OK)"));
    assert!(info.contains("dirty:     false"));
}

#[test]
fn written_blob_is_filled_up_with_nuls() {
    let (mut s, _) = Session::new(None);
    s.line("set board abc");
    s.line("commit");
    assert_eq!(s.written, vec![b"abc||\0\0\0".to_vec()]);
}

#[test]
fn shorter_value_leaves_nothing_of_the_longer_one() {
    let (mut s, _) = Session::new(Some(["a-long-board-id", "h", "t"]));
    s.line("set board x");
    assert!(s.line("info").contains("board_id:  \"x\"\n"));
    let mut buf = *b"longer";
    assert_eq!(recovery::copy_field(&mut buf, "ab"), Ok(()));
    assert_eq!(&buf, b"ab\0\0\0\0");
}

#[test]
fn set_refuses_what_does_not_fit() {
    let (mut s, _) = Session::new(Some(["b", "h", "t"]));
    assert_eq!(s.line(&format!("set board {}", "x".repeat(32))), "  staged (32 bytes)\n");
    assert_eq!(s.line(&format!("set board {}", "y".repeat(33))), "error: value too long\n");
    assert_eq!(s.line(&format!("set token {}", "z".repeat(192))), "  staged (192 bytes)\n");
    assert_eq!(s.line(&format!("set token {}", "z".repeat(193))), "error: value too long\n");
    let info = s.line("info");
    assert!(info.contains(&"x".repeat(32)));
    assert!(info.contains("token_len: 192 bytes"));
    let mut buf = *b"keep";
    assert_eq!(recovery::copy_field(&mut buf, "a\0b"), Err("interior NUL not allowed"));
    assert_eq!(recovery::copy_field(&mut buf, "fives"), Err("value too long"));
    assert_eq!(&buf, b"keep");
}

#[test]
fn set_needs_a_known_field() {
    let (mut s, _) = Session::new(None);
    assert_eq!(s.line("set"), "error: usage: set board|house|token <value>\n");
    assert_eq!(
        s.line("set boat x"),
        "error: unknown field (expected: board, house, token)\n"
    );
    assert!(s.line("info").contains("dirty:     false"));
    // A field without a value is emptied.
    assert_eq!(s.line("set board"), "  staged (0 bytes)\n");
    assert!(s.line("info").contains("dirty:     true"));
}

#[test]
fn empty_and_unknown_lines() {
    let (mut s, _) = Session::new(None);
    assert_eq!(s.line(""), "");
    assert_eq!(s.line("    "), "");
    assert_eq!(s.line("infos"), "unknown command: 'infos' (try 'help')\n");
    assert_eq!(s.line(" Help me "), "unknown command: 'Help' (try 'help')\n");
}

#[test]
fn wipe_unprovisions() {
    let (mut s, _) = Session::new(Some(["b", "h", "t"]));
    s.line("set board other");
    assert_eq!(
        s.line("wipe"),
        "wiping sector at 0x0D000 …\nwipe OK — partition is unprovisioned\n"
    );
    assert_eq!(
        s.line("info"),
        "  source:    flash unreadable / unprovisioned (staging from blank)\n  board_id:  \"\"\n  \
         house_id:  \"\"\n  token_len: 0 bytes (redacted)\n  dirty:     false\n"
    );
}

#[test]
fn failed_wipe_changes_nothing() {
    let (mut s, _) = Session::new(Some(["b", "h", "t"]));
    let before = s.line("info");
    s.erase = Err(FlashError::Rom(2));
    assert_eq!(s.line("wipe"), "wiping sector at 0x0D000 …\nwipe failed: Rom(2)\n");
    assert_eq!(s.line("info"), before);
}

#[test]
fn failed_commit_stays_dirty() {
    let (mut s, _) = Session::new(None);
    s.line("set board b");
    s.encode_fails = true;
    assert_eq!(s.line("commit"), "encode failed: too wide\n");
    s.encode_fails = false;
    s.erase = Err(FlashError::Rom(1));
    assert_eq!(s.line("commit"), "erasing sector at 0x0D000 …\nerase failed: Rom(1)\n");
    s.erase = Ok(());
    s.write = Err(FlashError::Unaligned);
    assert_eq!(s.line("commit"), "erasing sector at 0x0D000 …\nwrite failed: Unaligned\n");
    s.write = Ok(());
    s.read_back_fails = true;
    assert_eq!(
        s.line("commit"),
        "erasing sector at 0x0D000 …\ncommit wrote but verify failed: bad magic\n"
    );
    assert!(s.line("info").contains("dirty:     true"));
    s.read_back_fails = false;
    assert!(s.line("commit").contains("commit OK"));
    assert!(s.line("info").contains("dirty:     false"));
}

#[test]
fn reboot_halts() {
    let (mut s, _) = Session::new(None);
    assert_eq!(s.line("reboot"), "power-cycle the board to apply changes.\n");
    assert!(s.halted);
}

#[test]
fn keys_edit_the_line() {
    let (mut s, _) = Session::new(None);
    // Nothing to erase yet, then a typo that is taken back, with other keys ignored.
    assert_eq!(s.keys(b"\x08\x7Fhelq"), "helq");
    assert_eq!(s.keys(b"\x08"), "\x08 \x08");
    assert_eq!(s.keys(b"\x1B\x03\xC3\tp"), "p");
    assert!(s.keys(b"\n").starts_with("\ncommands:\n"));
}

#[test]
fn line_holds_so_many_bytes_and_no_more() {
    let mut line = Line::new();
    for i in 0..300 {
        let (next, echo) = line.key(b'a');
        line = next;
        assert_eq!(echo, if i < 256 { "a" } else { "" });
    }
    assert_eq!(line.text(), "a".repeat(256));
    let (line, echo) = line.key(0x7F);
    assert_eq!(echo, "\x08 \x08");
    assert_eq!(line.text().len(), 255);
}

#[test]
fn fields_show_up_to_their_first_nul() {
    assert_eq!(recovery::trim_nul(b"abc\0\0"), "abc");
    assert_eq!(recovery::trim_nul(b"abc"), "abc");
    assert_eq!(recovery::trim_nul(&[0xFF, 0x41]), "<non-utf8>");
}

#[test]
fn token_that_is_no_text_counts_as_its_stand_in() {
    let mut state = State::blank();
    state.house_token[0] = 0xFF;
    let id = Identity {
        board_id: state.board_id,
        house_id: state.house_id,
        house_token: state.house_token,
    };
    match recovery::run() {
        ShellStep::Load { next, .. } => {
            let (mut s, _) = Session::new(None);
            s.step = Some(next.resume(Some(id)));
            s.settle();
            assert!(s.line("info").contains("token_len: 10 bytes (redacted)"));
        }
        _ => panic!("no identity was asked for"),
    }
}

#[test]
fn tokens_of_one_length_look_the_same() {
    let lines = ["info", "help", "set token", "set board x", "nothing", "info"];
    let (mut a, banner_a) = Session::new(Some(["b", "h", "secret"]));
    let (mut b, banner_b) = Session::new(Some(["b", "h", "public"]));
    assert_eq!(banner_a, banner_b);
    for line in lines {
        let out = a.line(line);
        assert_eq!(out, b.line(line));
        assert!(!out.contains("secret"));
    }
}
