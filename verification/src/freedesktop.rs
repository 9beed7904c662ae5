use vstd::prelude::*;

use crate::kv::{spec_get, spec_set, table_get, table_set, table_view, KeyValue};
use crate::text::{find_char, skip_white, spec_find, str_eq, trim_tail_white, white_prefix_len,
    white_suffix_start};

verus! {

/// The kind of a desktop entry; only applications are offered as sessions.
#[derive(Debug, PartialEq, Eq)]
pub enum EntryType {
    Application,
    Unknown,
}

/// One parsed desktop entry.
#[derive(Debug)]
pub struct Entry {
    pub typ: EntryType,
    pub name: String,
    pub path: Option<String>,
    /// The `Exec` key: the command line of the entry.
    pub exec_cmd: Option<String>,
    pub icon: Option<String>,
    pub comment: Option<String>,
}

/// A desktop file whose body does not parse. Reading failures stay with
/// the process that reads the file.
#[derive(Debug)]
pub enum FileError {
    BadFormat,
}

/// Why a desktop entry is rejected: its file does not parse, or a
/// required field (type, name) is missing.
#[derive(Debug)]
pub enum EntryError {
    FileError(FileError),
    MissingRequiredField,
}

/// The body of a desktop file: its bindings in order of first appearance,
/// a repeated key keeping its first place with the last value.
pub struct DesktopFile(pub Vec<KeyValue>);

/// A line whose first non-white character is `#`: skipped.
pub open spec fn comment_line(l: Seq<char>) -> bool {
    skip_white(l).len() > 0 && skip_white(l)[0] == '#'
}

/// A line whose first non-white character is `[`: a new section, ending
/// the body.
pub open spec fn section_line(l: Seq<char>) -> bool {
    skip_white(l).len() > 0 && skip_white(l)[0] == '['
}

/// The binding a body line makes: the text before its first `=` without
/// trailing white space, and the text after it without leading white
/// space. A line with no `=` binds nothing and is an error.
pub open spec fn line_binding(l: Seq<char>) -> Option<(Seq<char>, Seq<char>)> {
    match spec_find(l, '=') {
        Some(i) => Some((trim_tail_white(l.take(i)), skip_white(l.skip(i + 1)))),
        None => None,
    }
}

/// The bindings a sequence of body lines adds onto `acc`: comments are
/// skipped, a section heading ends the body, and anything else must bind.
pub open spec fn parse_body(ls: Seq<Seq<char>>, acc: Seq<(Seq<char>, Seq<char>)>) -> Result<
    Seq<(Seq<char>, Seq<char>)>,
    FileError,
>
    decreases ls.len(),
{
    if ls.len() == 0 {
        Ok(acc)
    } else if comment_line(ls[0]) {
        parse_body(ls.skip(1), acc)
    } else if section_line(ls[0]) {
        Ok(acc)
    } else {
        match line_binding(ls[0]) {
            Some(b) => parse_body(ls.skip(1), spec_set(acc, b.0, b.1)),
            None => Err(FileError::BadFormat),
        }
    }
}

/// The bindings of a whole desktop file: the first line is the header and
/// is passed over whatever it holds; the rest is the body.
pub open spec fn desktop_bindings(lines: Seq<Seq<char>>) -> Result<
    Seq<(Seq<char>, Seq<char>)>,
    FileError,
> {
    if lines.len() == 0 {
        Ok(Seq::empty())
    } else {
        parse_body(lines.skip(1), Seq::empty())
    }
}

impl DesktopFile {
    /// Parse the lines of a desktop file into its bindings.
    pub fn new(lines: &Vec<String>) -> (r: Result<DesktopFile, FileError>)
        ensures
            match r {
                Ok(d) => desktop_bindings(lines.deep_view()) == Ok::<_, FileError>(
                    table_view(d.0@),
                ),
                Err(e) => desktop_bindings(lines.deep_view()) == Err::<
                    Seq<(Seq<char>, Seq<char>)>,
                    FileError,
                >(e),
            },
    {
        let ghost full = lines.deep_view();
        let mut table: Vec<KeyValue> = Vec::new();
        let n = lines.len();
        proof {
            assert(full.len() == n);
            assert(table_view(table@) =~= Seq::<(Seq<char>, Seq<char>)>::empty());
        }
        if n == 0 {
            return Ok(DesktopFile(table));
        }
        let mut i: usize = 1;
        proof {
            assert(full.skip(1).skip(0) =~= full.skip(1));
        }
        while i < n
            invariant
                1 <= i <= n,
                n == full.len(),
                n == lines@.len(),
                forall|j: int| 0 <= j < n ==> full[j] == #[trigger] lines@[j]@,
                parse_body(full.skip(1), Seq::empty()) == parse_body(
                    full.skip(i as int),
                    table_view(table@),
                ),
            decreases n - i,
        {
            proof {
                assert(full.skip(i as int)[0] == full[i as int]);
                assert(full.skip(i as int).skip(1) =~= full.skip(i as int + 1));
            }
            let line = &lines[i];
            let len = line.as_str().unicode_len();
            let w = white_prefix_len(line.as_str());
            proof {
                assert(full[i as int] == line@);
                if w < len {
                    assert(line@.skip(w as int)[0] == line@[w as int]);
                    assert(skip_white(line@).len() > 0);
                    assert(skip_white(line@)[0] == line@[w as int]);
                } else {
                    assert(line@.skip(w as int).len() == 0);
                    assert(skip_white(line@).len() == 0);
                }
            }
            if w < len {
                let c = line.as_str().get_char(w);
                if c == '#' {
                    proof {
                        assert(comment_line(full[i as int]));
                    }
                    i += 1;
                    continue ;
                }
                if c == '[' {
                    proof {
                        assert(section_line(full[i as int]));
                        assert(!comment_line(full[i as int]));
                        assert(parse_body(full.skip(i as int), table_view(table@)) == Ok::<
                            Seq<(Seq<char>, Seq<char>)>,
                            FileError,
                        >(table_view(table@)));
                        assert(full == lines.deep_view());
                        assert(parse_body(full.skip(1), Seq::empty()) == Ok::<
                            Seq<(Seq<char>, Seq<char>)>,
                            FileError,
                        >(table_view(table@)));
                        assert(desktop_bindings(lines.deep_view()) == Ok::<
                            Seq<(Seq<char>, Seq<char>)>,
                            FileError,
                        >(table_view(table@)));
                    }
                    return Ok(DesktopFile(table));
                }
            }
            proof {
                assert(!comment_line(full[i as int]));
                assert(!section_line(full[i as int]));
            }
            match find_char(line.as_str(), '=') {
                None => {
                    proof {
                        assert(line_binding(full[i as int]) is None);
                        assert(parse_body(full.skip(i as int), table_view(table@)) == Err::<
                            Seq<(Seq<char>, Seq<char>)>,
                            FileError,
                        >(FileError::BadFormat));
                        assert(full == lines.deep_view());
                        assert(parse_body(full.skip(1), Seq::empty()) == Err::<
                            Seq<(Seq<char>, Seq<char>)>,
                            FileError,
                        >(FileError::BadFormat));
                        assert(desktop_bindings(lines.deep_view()) == Err::<
                            Seq<(Seq<char>, Seq<char>)>,
                            FileError,
                        >(FileError::BadFormat));
                    }
                    return Err(FileError::BadFormat);
                },
                Some(p) => {
                    proof {
                        crate::text::lemma_spec_find(line@, '=');
                    }
                    let raw_key = line.as_str().substring_char(0, p);
                    proof {
                        assert(raw_key@ =~= line@.take(p as int));
                    }
                    let ke = white_suffix_start(raw_key);
                    let key = raw_key.substring_char(0, ke);
                    proof {
                        assert(key@ =~= trim_tail_white(line@.take(p as int)));
                    }
                    let raw_value = line.as_str().substring_char(p + 1, len);
                    proof {
                        assert(raw_value@ =~= line@.skip(p as int + 1));
                    }
                    let vs = white_prefix_len(raw_value);
                    let value = raw_value.substring_char(vs, raw_value.unicode_len());
                    proof {
                        assert(value@ =~= skip_white(line@.skip(p as int + 1)));
                        assert(line_binding(full[i as int]) == Some((key@, value@)));
                    }
                    table_set(&mut table, key, value);
                },
            }
            i += 1;
        }
        proof {
            assert(full.skip(n as int) =~= Seq::<Seq<char>>::empty());
        }
        Ok(DesktopFile(table))
    }
}

impl Entry {
    /// Parse the lines of a desktop file into an entry. The type and name
    /// fields are required; path, exec, icon and comment are optional.
    pub fn parse(lines: &Vec<String>) -> (r: Result<Entry, EntryError>)
        ensures
            match r {
                Ok(e) => desktop_bindings(lines.deep_view()) is Ok && {
                    let m = desktop_bindings(lines.deep_view()).unwrap();
                    &&& spec_get(m, "Type"@) is Some
                    &&& spec_get(m, "Name"@) is Some
                    &&& e.typ == (if spec_get(m, "Type"@) == Some("Application"@) {
                        EntryType::Application
                    } else {
                        EntryType::Unknown
                    })
                    &&& e.name@ == spec_get(m, "Name"@).unwrap()
                    &&& e.path.deep_view() == spec_get(m, "Path"@)
                    &&& e.exec_cmd.deep_view() == spec_get(m, "Exec"@)
                    &&& e.icon.deep_view() == spec_get(m, "Icon"@)
                    &&& e.comment.deep_view() == spec_get(m, "Comment"@)
                },
                Err(EntryError::FileError(f)) => desktop_bindings(lines.deep_view()) == Err::<
                    Seq<(Seq<char>, Seq<char>)>,
                    FileError,
                >(f),
                Err(EntryError::MissingRequiredField) => desktop_bindings(lines.deep_view())
                    is Ok && {
                    let m = desktop_bindings(lines.deep_view()).unwrap();
                    spec_get(m, "Type"@) is None || spec_get(m, "Name"@) is None
                },
            },
    {
        let desktop = match DesktopFile::new(lines) {
            Ok(d) => d,
            Err(f) => {
                return Err(EntryError::FileError(f));
            },
        };
        let typ = match table_get(&desktop.0, "Type") {
            Some(t) => {
                if str_eq(t.as_str(), "Application") {
                    EntryType::Application
                } else {
                    EntryType::Unknown
                }
            },
            None => {
                return Err(EntryError::MissingRequiredField);
            },
        };
        let name = match table_get(&desktop.0, "Name") {
            Some(v) => v.clone(),
            None => {
                return Err(EntryError::MissingRequiredField);
            },
        };
        let path = match table_get(&desktop.0, "Path") {
            Some(v) => Some(v.clone()),
            None => None,
        };
        let exec_cmd = match table_get(&desktop.0, "Exec") {
            Some(v) => Some(v.clone()),
            None => None,
        };
        let icon = match table_get(&desktop.0, "Icon") {
            Some(v) => Some(v.clone()),
            None => None,
        };
        let comment = match table_get(&desktop.0, "Comment") {
            Some(v) => Some(v.clone()),
            None => None,
        };
        Ok(Entry { typ, name, path, exec_cmd, icon, comment })
    }
}

} // verus!
