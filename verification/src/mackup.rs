//! Parsing of upstream application definition files: an INI-like format
//! with an `[application]` section carrying a `name = ...` key and two
//! sections listing configuration files, one path per line. Fetching the
//! upstream repository and walking its files is I/O and stays with the
//! caller; the parsing here is pure, line by line.

use vstd::prelude::*;
use vstd::string::StrSliceExecFns;
use vstd::string::StringExecFns;

use crate::text;

verus! {

/// The index of the first `=` in a line, or the line's length when there
/// is none.
pub open spec fn find_eq(s: Seq<char>) -> int
    decreases s.len(),
{
    if s.len() == 0 {
        0
    } else if s[0] == '=' {
        0
    } else {
        1 + find_eq(s.skip(1))
    }
}

/// The index of the first `=`, or the length when there is none.
pub fn find_first_eq(s: &str) -> (r: usize)
    ensures
        r == find_eq(s@),
        r <= s@.len(),
{
    let n = s.unicode_len();
    let mut i: usize = 0;
    proof {
        assert(s@.skip(0) =~= s@);
    }
    while i < n
        invariant
            i <= n,
            n == s@.len(),
            find_eq(s@) == i + find_eq(s@.skip(i as int)),
        decreases n - i,
    {
        proof {
            let rest = s@.skip(i as int);
            assert(rest[0] == s@[i as int]);
            assert(rest.skip(1) =~= s@.skip(i + 1));
        }
        if s.get_char(i) == '=' {
            return i;
        }
        i += 1;
    }
    proof {
        assert(s@.skip(n as int) =~= Seq::<char>::empty());
    }
    n
}

/// One line folded into the parse state `(name, config files, xdg files,
/// current section)`: comments and blank lines are skipped, a bracketed
/// line switches the section, a `name = ...` line inside `[application]`
/// sets the name, and a line without `=` inside either file section is a
/// path.
pub open spec fn cfg_step(
    name: Seq<char>,
    cfg: Seq<Seq<char>>,
    xdg: Seq<Seq<char>>,
    section: Seq<char>,
    raw: Seq<char>,
) -> (Seq<char>, Seq<Seq<char>>, Seq<Seq<char>>, Seq<char>) {
    let line = text::trim_spec(raw);
    if line.len() == 0 || line[0] == '#' || line[0] == ';' {
        (name, cfg, xdg, section)
    } else if line[0] == '[' && line[line.len() - 1] == ']' {
        (name, cfg, xdg, line.subrange(1, line.len() - 1))
    } else if section == "application"@ {
        if find_eq(line) < line.len() {
            let key = text::trim_spec(line.take(find_eq(line)));
            let value = text::trim_spec(line.skip(find_eq(line) + 1));
            if key == "name"@ {
                (value, cfg, xdg, section)
            } else {
                (name, cfg, xdg, section)
            }
        } else {
            (name, cfg, xdg, section)
        }
    } else if section == "configuration_files"@ {
        if find_eq(line) < line.len() {
            (name, cfg, xdg, section)
        } else {
            (name, cfg.push(line), xdg, section)
        }
    } else if section == "xdg_configuration_files"@ {
        if find_eq(line) < line.len() {
            (name, cfg, xdg, section)
        } else {
            (name, cfg, xdg.push(line), section)
        }
    } else {
        (name, cfg, xdg, section)
    }
}

/// The parse state after folding the lines from index `i` on.
pub open spec fn parse_cfg_from(
    lines: Seq<Seq<char>>,
    i: int,
    name: Seq<char>,
    cfg: Seq<Seq<char>>,
    xdg: Seq<Seq<char>>,
    section: Seq<char>,
) -> (Seq<char>, Seq<Seq<char>>, Seq<Seq<char>>)
    decreases lines.len() - i,
{
    if i < 0 || i >= lines.len() {
        (name, cfg, xdg)
    } else {
        let st = cfg_step(name, cfg, xdg, section, lines[i]);
        parse_cfg_from(lines, i + 1, st.0, st.1, st.2, st.3)
    }
}

/// What parsing a whole definition file yields: the application name and
/// the two path lists.
pub open spec fn parse_cfg_spec(content: Seq<char>) -> (Seq<char>, Seq<Seq<char>>, Seq<Seq<char>>) {
    parse_cfg_from(
        text::split_lines_spec(content),
        0,
        Seq::empty(),
        Seq::empty(),
        Seq::empty(),
        Seq::empty(),
    )
}

/// Imports application definitions from the upstream database. Cloning the
/// upstream repository and walking its files happen at the edge; the
/// parsing and rendering of the definition files live here.
pub struct MackupSync;

impl MackupSync {
    /// Parse one application definition file into its name, its
    /// configuration files and its xdg configuration files.
    pub fn parse_cfg_content(content: &str) -> (r: (String, Vec<String>, Vec<String>))
        ensures
            r.0@ == parse_cfg_spec(content@).0,
            r.1.deep_view() == parse_cfg_spec(content@).1,
            r.2.deep_view() == parse_cfg_spec(content@).2,
    {
        let lines = text::split_lines(content);
        let n = lines.len();
        let mut name = String::new();
        let mut cfg: Vec<String> = Vec::new();
        let mut xdg: Vec<String> = Vec::new();
        let mut section = String::new();
        let mut i: usize = 0;
        proof {
            assert(cfg.deep_view() =~= Seq::<Seq<char>>::empty());
            assert(xdg.deep_view() =~= Seq::<Seq<char>>::empty());
        }
        while i < n
            invariant
                i <= n,
                n == lines@.len(),
                lines.deep_view().len() == n,
                lines.deep_view() == text::split_lines_spec(content@),
                parse_cfg_spec(content@) == parse_cfg_from(
                    lines.deep_view(),
                    i as int,
                    name@,
                    cfg.deep_view(),
                    xdg.deep_view(),
                    section@,
                ),
            decreases n - i,
        {
            let ghost g_name = name@;
            let ghost g_cfg = cfg.deep_view();
            let ghost g_xdg = xdg.deep_view();
            let ghost g_sec = section@;
            let ghost raw = lines.deep_view()[i as int];
            let line = text::trim(lines[i].as_str());
            let ghost line_v = line@;
            proof {
                assert(raw == lines@[i as int]@);
                assert(line_v == text::trim_spec(raw));
            }
            let m = line.as_str().unicode_len();
            let first = if m > 0 {
                line.as_str().get_char(0)
            } else {
                ' '
            };
            if m == 0 || first == '#' || first == ';' {
            } else if first == '[' && line.as_str().get_char(m - 1) == ']' {
                proof {
                    if m < 2 {
                        assert(line_v[0] == '[' && line_v[0] == ']');
                        assert(false);
                    }
                }
                section = line.as_str().substring_char(1, m - 1).to_owned();
                proof {
                    assert(section@ =~= line_v.subrange(1, line_v.len() - 1));
                }
            } else if text::str_eq(section.as_str(), "application") {
                let e = find_first_eq(line.as_str());
                if e < m {
                    let key = text::trim(line.as_str().substring_char(0, e));
                    let value = text::trim(line.as_str().substring_char(e + 1, m));
                    proof {
                        assert(line_v.subrange(0, e as int) =~= line_v.take(find_eq(line_v)));
                        assert(line_v.subrange(e + 1, m as int) =~= line_v.skip(
                            find_eq(line_v) + 1,
                        ));
                    }
                    if text::str_eq(key.as_str(), "name") {
                        name = value;
                    }
                }
            } else if text::str_eq(section.as_str(), "configuration_files") {
                let e = find_first_eq(line.as_str());
                if e == m {
                    cfg.push(line);
                    proof {
                        assert(cfg.deep_view() =~= g_cfg.push(line_v));
                    }
                }
            } else if text::str_eq(section.as_str(), "xdg_configuration_files") {
                let e = find_first_eq(line.as_str());
                if e == m {
                    xdg.push(line);
                    proof {
                        assert(xdg.deep_view() =~= g_xdg.push(line_v));
                    }
                }
            }
            proof {
                let st = cfg_step(g_name, g_cfg, g_xdg, g_sec, raw);
                assert(name@ == st.0 && cfg.deep_view() == st.1 && xdg.deep_view() == st.2
                    && section@ == st.3);
                assert(parse_cfg_from(lines.deep_view(), i as int, g_name, g_cfg, g_xdg, g_sec)
                    == parse_cfg_from(
                    lines.deep_view(),
                    i + 1,
                    name@,
                    cfg.deep_view(),
                    xdg.deep_view(),
                    section@,
                ));
            }
            i += 1;
        }
        (name, cfg, xdg)
    }
}

} // verus!
