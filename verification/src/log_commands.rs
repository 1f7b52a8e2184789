//! Shell commands for reading and listing the remote system logs.
//!
//! These are pure command builders: the session pool runs what they
//! produce and the application interprets the text that comes back.
//! Filters reach the remote shell inside single quotes, so the characters
//! that could escape a quoted grep pattern are escaped first.

use vstd::prelude::*;

use vstd::string::StrSliceExecFns;
use vstd::string::StringExecFns;

use crate::text::{is_plain_ws, spec_dec, spec_trimmed, trim_back, trim_front, trimmed, usize_to_string};

verus! {

/// Description of one log file on the remote host.
#[derive(Debug, Clone)]
pub struct LogFileInfo {
    pub path: String,
    pub name: String,
    pub size: u64,
    pub modified: String,
    pub readable: bool,
}

/// The grep-pattern escape of one character: a quote becomes a closed
/// quote, an escaped quote and a reopened quote; the shell-significant
/// characters gain a backslash; everything else stands as it is.
pub open spec fn esc_piece(c: char) -> Seq<char> {
    if c == '\'' {
        seq!['\'', '\\', '\'', '\'']
    } else if c == '\\' || c == '$' || c == '`' || c == '"' || c == '!' {
        seq!['\\', c]
    } else {
        seq![c]
    }
}

/// The grep-pattern escape of a whole filter.
pub open spec fn spec_grep_escaped(s: Seq<char>) -> Seq<char>
    decreases s.len(),
{
    if s.len() == 0 {
        Seq::<char>::empty()
    } else {
        esc_piece(s[0]) + spec_grep_escaped(s.drop_first())
    }
}

/// Escaping one more character appends its piece.
proof fn lemma_escape_push(s: Seq<char>, k: int)
    requires
        0 <= k < s.len(),
    ensures
        spec_grep_escaped(s.take(k + 1)) == spec_grep_escaped(s.take(k)) + esc_piece(s[k]),
    decreases k,
{
    let t = s.take(k + 1);
    if k == 0 {
        assert(t.drop_first() =~= Seq::<char>::empty());
        assert(spec_grep_escaped(t) == esc_piece(s[0]) + spec_grep_escaped(Seq::<char>::empty()));
        assert(s.take(0) =~= Seq::<char>::empty());
        assert(spec_grep_escaped(t) =~= spec_grep_escaped(s.take(0)) + esc_piece(s[0]));
    } else {
        assert(t[0] == s[0]);
        assert(t.drop_first() =~= s.drop_first().take(k));
        assert(s.take(k)[0] == s[0]);
        assert(s.take(k).drop_first() =~= s.drop_first().take(k - 1));
        lemma_escape_push(s.drop_first(), k - 1);
        assert(s.drop_first()[k - 1] == s[k]);
        assert(spec_grep_escaped(t) == esc_piece(s[0]) + spec_grep_escaped(s.drop_first().take(k)));
        assert(spec_grep_escaped(s.take(k)) == esc_piece(s[0]) + spec_grep_escaped(
            s.drop_first().take(k - 1),
        ));
        assert(spec_grep_escaped(t) =~= spec_grep_escaped(s.take(k)) + esc_piece(s[k]));
    }
}

/// Escapes a filter for use inside a single-quoted grep pattern.
fn escape_grep_pattern(pattern: &str) -> (r: String)
    ensures
        r@ == spec_grep_escaped(pattern@),
{
    let n = pattern.unicode_len();
    let mut out = String::new();
    let mut i: usize = 0;
    while i < n
        invariant
            n == pattern@.len(),
            0 <= i <= n,
            out@ == spec_grep_escaped(pattern@.take(i as int)),
        decreases n - i,
    {
        let c = pattern.get_char(i);
        if c == '\'' {
            out.append("'\\''");
            proof {
                reveal_strlit("'\\''");
                assert("'\\''"@ =~= esc_piece('\''));
            }
        } else if c == '\\' {
            out.append("\\\\");
            proof {
                reveal_strlit("\\\\");
                assert("\\\\"@ =~= esc_piece('\\'));
            }
        } else if c == '$' {
            out.append("\\$");
            proof {
                reveal_strlit("\\$");
                assert("\\$"@ =~= esc_piece('$'));
            }
        } else if c == '`' {
            out.append("\\`");
            proof {
                reveal_strlit("\\`");
                assert("\\`"@ =~= esc_piece('`'));
            }
        } else if c == '"' {
            out.append("\\\"");
            proof {
                reveal_strlit("\\\"");
                assert("\\\""@ =~= esc_piece('"'));
            }
        } else if c == '!' {
            out.append("\\!");
            proof {
                reveal_strlit("\\!");
                assert("\\!"@ =~= esc_piece('!'));
            }
        } else {
            let piece = pattern.substring_char(i, i + 1);
            out.append(piece);
            proof {
                assert(pattern@.subrange(i as int, i + 1) =~= esc_piece(pattern@[i as int]));
            }
        }
        i = i + 1;
        proof {
            lemma_escape_push(pattern@, i - 1);
        }
    }
    proof {
        assert(pattern@.take(n as int) =~= pattern@);
    }
    out
}

/// The trimmed text of an optional filter.
pub open spec fn opt_trim(o: Option<Seq<char>>) -> Seq<char> {
    match o {
        Some(s) => spec_trimmed(s),
        None => Seq::<char>::empty(),
    }
}

/// Whether an optional filter carries any text.
pub open spec fn has_text(o: Option<Seq<char>>) -> bool {
    opt_trim(o).len() > 0
}

/// The grep pipeline for the two optional filters: the text filter
/// case-insensitively with extended patterns, the date filter plainly.
pub open spec fn spec_grep_chain(filter: Option<Seq<char>>, date: Option<Seq<char>>) -> Seq<char> {
    let f = if has_text(filter) {
        "grep -iE '"@ + spec_grep_escaped(opt_trim(filter)) + "'"@
    } else {
        Seq::<char>::empty()
    };
    let d = if has_text(date) {
        "grep '"@ + spec_grep_escaped(opt_trim(date)) + "'"@
    } else {
        Seq::<char>::empty()
    };
    if has_text(filter) && has_text(date) {
        f + " | "@ + d
    } else {
        f + d
    }
}

/// The command that reads one page of a log file.
///
/// Without filters it tails the file directly; with filters it pipes the
/// file through the grep chain; either way the page arithmetic selects
/// the requested slice and a fallback message covers a missing file.
pub open spec fn spec_log_read_cmd(
    path: Seq<char>,
    page: nat,
    page_size: nat,
    filter: Option<Seq<char>>,
    date: Option<Seq<char>>,
) -> Seq<char> {
    if !has_text(filter) && !has_text(date) {
        if page == 1 {
            "tail -n "@ + spec_dec(page_size) + " "@ + path
                + " 2>/dev/null || echo 'Log file not found'"@
        } else {
            "tail -n "@ + spec_dec(page * page_size) + " "@ + path + " 2>/dev/null | head -n "@
                + spec_dec(page_size) + " || echo 'Log file not found'"@
        }
    } else {
        let chain = spec_grep_chain(filter, date);
        if page == 1 {
            "cat "@ + path + " 2>/dev/null | "@ + chain + " | tail -n "@ + spec_dec(page_size)
                + " || echo 'No matching entries'"@
        } else {
            "cat "@ + path + " 2>/dev/null | "@ + chain + " | tail -n "@ + spec_dec(
                page * page_size,
            ) + " | head -n "@ + spec_dec(page_size) + " || echo 'No matching entries'"@
        }
    }
}

/// Builds the command that reads one page of a log file.
pub fn generate_log_read_command(
    log_path: &str,
    page: usize,
    page_size: usize,
    filter: Option<&str>,
    date_filter: Option<&str>,
) -> (r: String)
    requires
        page * page_size <= usize::MAX,
    ensures
        r@ == spec_log_read_cmd(
            log_path@,
            page as nat,
            page_size as nat,
            match filter {
                Some(f) => Some(f@),
                None => None,
            },
            match date_filter {
                Some(d) => Some(d@),
                None => None,
            },
        ),
{
    let total_lines: usize = page * page_size;

    let has_filter: bool = match filter {
        Some(f) => !trimmed(f).is_empty(),
        None => false,
    };
    let has_date: bool = match date_filter {
        Some(d) => !trimmed(d).is_empty(),
        None => false,
    };

    if !has_filter && !has_date {
        if page == 1 {
            "tail -n ".to_owned().concat(usize_to_string(page_size).as_str()).concat(" ").concat(
                log_path,
            ).concat(" 2>/dev/null || echo 'Log file not found'")
        } else {
            "tail -n ".to_owned().concat(usize_to_string(total_lines).as_str()).concat(
                " ",
            ).concat(log_path).concat(" 2>/dev/null | head -n ").concat(
                usize_to_string(page_size).as_str(),
            ).concat(" || echo 'Log file not found'")
        }
    } else {
        let mut chain = String::new();
        if has_filter {
            let f = match filter {
                Some(f) => f,
                None => "",
            };
            chain = chain.concat("grep -iE '").concat(
                escape_grep_pattern(trimmed(f)).as_str(),
            ).concat("'");
        }
        if has_filter && has_date {
            chain = chain.concat(" | ");
        }
        if has_date {
            let d = match date_filter {
                Some(d) => d,
                None => "",
            };
            chain = chain.concat("grep '").concat(
                escape_grep_pattern(trimmed(d)).as_str(),
            ).concat("'");
        }
        proof {
            assert(chain@ =~= spec_grep_chain(
                match filter {
                    Some(f) => Some(f@),
                    None => None,
                },
                match date_filter {
                    Some(d) => Some(d@),
                    None => None,
                },
            ));
        }
        if page == 1 {
            let r = "cat ".to_owned().concat(log_path).concat(" 2>/dev/null | ").concat(
                chain.as_str(),
            ).concat(" | tail -n ").concat(usize_to_string(page_size).as_str()).concat(
                " || echo 'No matching entries'",
            );
            proof {
                assert(r@ =~= spec_log_read_cmd(
                    log_path@,
                    page as nat,
                    page_size as nat,
                    match filter {
                        Some(f) => Some(f@),
                        None => None,
                    },
                    match date_filter {
                        Some(d) => Some(d@),
                        None => None,
                    },
                ));
            }
            r
        } else {
            let r = "cat ".to_owned().concat(log_path).concat(" 2>/dev/null | ").concat(
                chain.as_str(),
            ).concat(" | tail -n ").concat(usize_to_string(total_lines).as_str()).concat(
                " | head -n ",
            ).concat(usize_to_string(page_size).as_str()).concat(" || echo 'No matching entries'");
            proof {
                assert(r@ =~= spec_log_read_cmd(
                    log_path@,
                    page as nat,
                    page_size as nat,
                    match filter {
                        Some(f) => Some(f@),
                        None => None,
                    },
                    match date_filter {
                        Some(d) => Some(d@),
                        None => None,
                    },
                ));
            }
            r
        }
    }
}

/// The journal query: unit, time bounds and filter folded into one
/// pipeline, with the same page arithmetic as the file reader.
pub open spec fn spec_journal_base(
    unit: Option<Seq<char>>,
    filter: Option<Seq<char>>,
    since: Option<Seq<char>>,
    until: Option<Seq<char>>,
) -> Seq<char> {
    "journalctl --no-pager"@ + (if has_text(unit) {
        " -u "@ + unit.unwrap()
    } else {
        Seq::<char>::empty()
    }) + (if has_text(since) {
        " --since \""@ + since.unwrap() + "\""@
    } else {
        Seq::<char>::empty()
    }) + (if has_text(until) {
        " --until \""@ + until.unwrap() + "\""@
    } else {
        Seq::<char>::empty()
    }) + (if has_text(filter) {
        " | grep -iE '"@ + spec_grep_escaped(opt_trim(filter)) + "'"@
    } else {
        Seq::<char>::empty()
    })
}

pub open spec fn spec_journalctl_cmd(
    page: nat,
    page_size: nat,
    unit: Option<Seq<char>>,
    filter: Option<Seq<char>>,
    since: Option<Seq<char>>,
    until: Option<Seq<char>>,
) -> Seq<char> {
    let base = spec_journal_base(unit, filter, since, until);
    let paged = if page == 1 {
        base + " -n "@ + spec_dec(page_size)
    } else {
        base + " -n "@ + spec_dec(page * page_size) + " | head -n "@ + spec_dec(page_size)
    };
    paged + " 2>/dev/null || echo 'journalctl not available'"@
}

/// Builds the journal query for one page.
/// Builds the query pipeline up to the page selection.
#[verifier::rlimit(100)]
#[verifier::spinoff_prover]
fn journal_base(
    unit: Option<&str>,
    filter: Option<&str>,
    since: Option<&str>,
    until: Option<&str>,
) -> (r: String)
    ensures
        r@ == spec_journal_base(
            match unit {
                Some(u) => Some(u@),
                None => None,
            },
            match filter {
                Some(f) => Some(f@),
                None => None,
            },
            match since {
                Some(s) => Some(s@),
                None => None,
            },
            match until {
                Some(u) => Some(u@),
                None => None,
            },
        ),
{
    let mut cmd = "journalctl --no-pager".to_owned();
    match unit {
        Some(u) => {
            if !trimmed(u).is_empty() {
                cmd = cmd.concat(" -u ").concat(u);
            }
        },
        None => {},
    }
    match since {
        Some(s) => {
            if !trimmed(s).is_empty() {
                cmd = cmd.concat(" --since \"").concat(s).concat("\"");
            }
        },
        None => {},
    }
    match until {
        Some(u) => {
            if !trimmed(u).is_empty() {
                cmd = cmd.concat(" --until \"").concat(u).concat("\"");
            }
        },
        None => {},
    }
    match filter {
        Some(f) => {
            if !trimmed(f).is_empty() {
                cmd = cmd.concat(" | grep -iE '").concat(
                    escape_grep_pattern(trimmed(f)).as_str(),
                ).concat("'");
            }
        },
        None => {},
    }
    proof {
        assert(cmd@ =~= spec_journal_base(
            match unit {
                Some(u) => Some(u@),
                None => None,
            },
            match filter {
                Some(f) => Some(f@),
                None => None,
            },
            match since {
                Some(s) => Some(s@),
                None => None,
            },
            match until {
                Some(u) => Some(u@),
                None => None,
            },
        ));
    }
    cmd
}

/// Builds the journal query for one page.
pub fn generate_journalctl_command(
    page: usize,
    page_size: usize,
    unit: Option<&str>,
    filter: Option<&str>,
    since: Option<&str>,
    until: Option<&str>,
) -> (r: String)
    requires
        page * page_size <= usize::MAX,
    ensures
        r@ == spec_journalctl_cmd(
            page as nat,
            page_size as nat,
            match unit {
                Some(u) => Some(u@),
                None => None,
            },
            match filter {
                Some(f) => Some(f@),
                None => None,
            },
            match since {
                Some(s) => Some(s@),
                None => None,
            },
            match until {
                Some(u) => Some(u@),
                None => None,
            },
        ),
{
    let mut cmd = journal_base(unit, filter, since, until);
    let ghost base: Seq<char> = cmd@;
    if page == 1 {
        cmd = cmd.concat(" -n ").concat(usize_to_string(page_size).as_str());
        proof {
            assert(cmd@ =~= base + " -n "@ + spec_dec(page_size as nat));
        }
    } else {
        let total_lines: usize = page * page_size;
        cmd = cmd.concat(" -n ").concat(usize_to_string(total_lines).as_str()).concat(
            " | head -n ",
        ).concat(usize_to_string(page_size).as_str());
        proof {
            assert(cmd@ =~= base + " -n "@ + spec_dec((page * page_size) as nat) + " | head -n "@
                + spec_dec(page_size as nat));
        }
    }
    let r = cmd.concat(" 2>/dev/null || echo 'journalctl not available'");
    proof {
        assert(r@ =~= spec_journalctl_cmd(
            page as nat,
            page_size as nat,
            match unit {
                Some(u) => Some(u@),
                None => None,
            },
            match filter {
                Some(f) => Some(f@),
                None => None,
            },
            match since {
                Some(s) => Some(s@),
                None => None,
            },
            match until {
                Some(u) => Some(u@),
                None => None,
            },
        ));
    }
    r
}

/// Builds the command that lists the readable log files with their sizes
/// and modification times.
pub fn generate_list_log_files_command() -> (r: String)
    ensures
        r@
            == "find /var/log -maxdepth 2 -type f \\( -name \"*.log\" -o -name \"messages\" -o -name \"secure\" -o -name \"syslog\" -o -name \"auth.log\" \\) -readable -exec stat -c \"%s|%n|%Y\" {} \\; 2>/dev/null | head -50"@,
{
    "find /var/log -maxdepth 2 -type f \\( -name \"*.log\" -o -name \"messages\" -o -name \"secure\" -o -name \"syslog\" -o -name \"auth.log\" \\) -readable -exec stat -c \"%s|%n|%Y\" {} \\; 2>/dev/null | head -50".to_owned()
}

/// Builds the command that reports one log file's size, modification
/// time and readability.
pub fn generate_log_file_info_command(log_path: &str) -> (r: String)
    ensures
        r@ == "stat -c \"size:%s|modified:%y|readable:yes\" "@ + log_path@
            + " 2>/dev/null || echo \"readable:no\""@,
{
    "stat -c \"size:%s|modified:%y|readable:yes\" ".to_owned().concat(log_path).concat(
        " 2>/dev/null || echo \"readable:no\"",
    )
}

} // verus!
