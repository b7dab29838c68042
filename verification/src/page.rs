//! Pages: standalone documents of the site, such as the landing page.
//!
//! A page file carries a three-line front-matter header between two `---`
//! marker lines (`title`, `draft` and `index` fields in any order, each
//! exactly once), followed by the markdown body.

use vstd::prelude::*;
use crate::error::BlogError;
use crate::text::{
    bool_of_field, bool_str, bool_to_str, find_char, find_char_spec, join_strings, join_with,
    parse_bool_field, split_lines, split_lines_spec, str_eq, trim, trim_spec,
};

verus! {

/// A page of the site.  The filenames are empty until the page is registered
/// with the content registry, which assigns collision-free names.
#[derive(Debug)]
pub struct Page {
    pub content: String,
    pub draft: bool,
    pub index: bool,
    pub title: String,
    pub html_filename: String,
    pub md_filename: String,
}

impl Default for Page {
    /// A page with empty text fields, not a draft and not the landing page.
    fn default() -> (r: Page)
        ensures
            r.content@ == Seq::<char>::empty(),
            r.draft == false,
            r.index == false,
            r.title@ == Seq::<char>::empty(),
            r.html_filename@ == Seq::<char>::empty(),
            r.md_filename@ == Seq::<char>::empty(),
    {
        Page {
            content: String::new(),
            draft: false,
            index: false,
            title: String::new(),
            html_filename: String::new(),
            md_filename: String::new(),
        }
    }
}

/// The fields a parsed page header yields.
pub ghost struct PageData {
    pub title: Seq<char>,
    pub draft: bool,
    pub index: bool,
    pub content: Seq<char>,
}

/// The running state of header-field processing: which fields have been seen,
/// and their values.
pub ghost struct PageAcc {
    pub seen_draft: bool,
    pub seen_index: bool,
    pub seen_title: bool,
    pub draft: bool,
    pub index: bool,
    pub title: Seq<char>,
}

/// The accumulator before any header field was processed.
pub open spec fn page_acc_init() -> PageAcc {
    PageAcc {
        seen_draft: false,
        seen_index: false,
        seen_title: false,
        draft: false,
        index: false,
        title: Seq::empty(),
    }
}

pub open spec fn page_incomplete_msg() -> Seq<char> {
    "Page header is incomplete"@
}

pub open spec fn page_start_marker_msg() -> Seq<char> {
    "Page start marker missing or formatted incorrectly"@
}

pub open spec fn page_end_marker_msg() -> Seq<char> {
    "Page end marker missing or formatted incorrectly"@
}

pub open spec fn page_invalid_line_msg(line: Seq<char>) -> Seq<char> {
    "Invalid page header line: '"@ + line + "'"@
}

pub open spec fn page_dup_field_msg(key: Seq<char>) -> Seq<char> {
    "Duplicate page header field found: '"@ + key + "'"@
}

pub open spec fn page_unsupported_field_msg(key: Seq<char>) -> Seq<char> {
    "Unsupported page header field: '"@ + key + "'"@
}

pub open spec fn bool_field_msg() -> Seq<char> {
    "Draft field must be either 'true' or 'false'."@
}

pub open spec fn empty_title_msg() -> Seq<char> {
    "The title cannot be empty or consist of only whitespace characters."@
}

/// Processes the header lines `lines[i..4]` in order, starting from the
/// state `acc`: each line must be `key: value` with a known key (`draft`,
/// `index`, `title`) not seen before and a well-formed value.  The first
/// offending line decides the error.
pub open spec fn page_fields_spec(lines: Seq<Seq<char>>, i: int, acc: PageAcc) -> Result<
    PageAcc,
    Seq<char>,
>
    decreases 4 - i,
{
    if i < 1 || i >= 4 {
        Ok(acc)
    } else {
        let line = lines[i];
        match find_char_spec(line, ':') {
            None => Err(page_invalid_line_msg(line)),
            Some(j) => {
                let key = line.subrange(0, j);
                let value = line.subrange(j + 1, line.len() as int);
                if key == "draft"@ {
                    if acc.seen_draft {
                        Err(page_dup_field_msg(key))
                    } else {
                        match bool_of_field(value) {
                            Some(b) => page_fields_spec(
                                lines,
                                i + 1,
                                PageAcc { seen_draft: true, draft: b, ..acc },
                            ),
                            None => Err(bool_field_msg()),
                        }
                    }
                } else if key == "index"@ {
                    if acc.seen_index {
                        Err(page_dup_field_msg(key))
                    } else {
                        match bool_of_field(value) {
                            Some(b) => page_fields_spec(
                                lines,
                                i + 1,
                                PageAcc { seen_index: true, index: b, ..acc },
                            ),
                            None => Err(bool_field_msg()),
                        }
                    }
                } else if key == "title"@ {
                    if acc.seen_title {
                        Err(page_dup_field_msg(key))
                    } else if trim_spec(value).len() == 0 {
                        Err(empty_title_msg())
                    } else {
                        page_fields_spec(
                            lines,
                            i + 1,
                            PageAcc { seen_title: true, title: trim_spec(value), ..acc },
                        )
                    }
                } else {
                    Err(page_unsupported_field_msg(key))
                }
            },
        }
    }
}

/// What parsing a page file yields: the header fields and the body, or the
/// message of the first error.  The file must hold at least five lines; the
/// first and the fifth must be `---` markers (up to surrounding whitespace);
/// lines two to four are the header fields; everything after the fifth line
/// is the body, the lines joined back with `\n`.
pub open spec fn parse_page_spec(s: Seq<char>) -> Result<PageData, Seq<char>> {
    let lines = split_lines_spec(s);
    if lines.len() < 5 {
        Err(page_incomplete_msg())
    } else if trim_spec(lines[0]) != "---"@ {
        Err(page_start_marker_msg())
    } else if trim_spec(lines[4]) != "---"@ {
        Err(page_end_marker_msg())
    } else {
        match page_fields_spec(lines, 1, page_acc_init()) {
            Err(m) => Err(m),
            Ok(acc) => Ok(
                PageData {
                    title: acc.title,
                    draft: acc.draft,
                    index: acc.index,
                    content: join_with(lines.skip(5), seq!['\n']),
                },
            ),
        }
    }
}

/// Parses the `draft` (or `index`) field value of a page header: the trimmed
/// value must be `true` or `false`.
fn parse_draft(draft: &str) -> (r: Result<bool, BlogError>)
    ensures
        match r {
            Ok(b) => bool_of_field(draft@) == Some(b),
            Err(e) => bool_of_field(draft@) is None && e.wf() && e.chain() == seq![
                bool_field_msg(),
            ],
        },
{
    match parse_bool_field(draft) {
        Some(b) => Ok(b),
        None => Err(
            BlogError::new(
                String::from_str("Draft field must be either 'true' or 'false'."),
            ),
        ),
    }
}

/// Parses the `index` field value; the format is the same as for `draft`,
/// and so is the message a bad value produces.
fn parse_index(index: &str) -> (r: Result<bool, BlogError>)
    ensures
        match r {
            Ok(b) => bool_of_field(index@) == Some(b),
            Err(e) => bool_of_field(index@) is None && e.wf() && e.chain() == seq![
                bool_field_msg(),
            ],
        },
{
    parse_draft(index)
}

/// Parses the `title` field value: trimmed, and it must not be empty.
fn parse_title(title: &str) -> (r: Result<String, BlogError>)
    ensures
        match r {
            Ok(t) => trim_spec(title@).len() > 0 && t@ == trim_spec(title@),
            Err(e) => trim_spec(title@).len() == 0 && e.wf() && e.chain() == seq![
                empty_title_msg(),
            ],
        },
{
    let t = trim(title);
    if t.unicode_len() == 0 {
        Err(
            BlogError::new(
                String::from_str(
                    "The title cannot be empty or consist of only whitespace characters.",
                ),
            ),
        )
    } else {
        Ok(String::from_str(t))
    }
}

/// Renders a page back into its file format: the three header fields between
/// `---` markers, then the body.
pub open spec fn page_to_string_spec(p: &Page) -> Seq<char> {
    "---\ntitle: "@ + p.title@ + "\ndraft: "@ + bool_str(p.draft) + "\nindex: "@ + bool_str(
        p.index,
    ) + "\n---\n"@ + p.content@
}

/// Renders a page into its file format.
pub fn parse_to_string(page: &Page) -> (r: String)
    ensures
        r@ == page_to_string_spec(page),
{
    let mut out = String::new();
    proof {
        reveal_strlit("---\ntitle: ");
        reveal_strlit("\ndraft: ");
        reveal_strlit("\nindex: ");
        reveal_strlit("\n---\n");
    }
    out.append("---\ntitle: ");
    out.append(page.title.as_str());
    out.append("\ndraft: ");
    out.append(bool_to_str(page.draft));
    out.append("\nindex: ");
    out.append(bool_to_str(page.index));
    out.append("\n---\n");
    out.append(page.content.as_str());
    out
}

/// Parses a page file: front-matter header, then body.  Exactly the inputs
/// `parse_page_spec` accepts yield a page, and a rejected input reports the
/// message `parse_page_spec` gives.
#[verifier::loop_isolation(false)]
pub fn parse_from_string(data: &str) -> (r: Result<Page, BlogError>)
    ensures
        match r {
            Ok(p) => {
                &&& parse_page_spec(data@) matches Ok(d)
                &&& p.title@ == d.title
                &&& p.draft == d.draft
                &&& p.index == d.index
                &&& p.content@ == d.content
                &&& p.html_filename@ == Seq::<char>::empty()
                &&& p.md_filename@ == Seq::<char>::empty()
            },
            Err(e) => {
                &&& parse_page_spec(data@) matches Err(m)
                &&& e.wf()
                &&& e.chain() == seq![m]
            },
        },
{
    let lines = split_lines(data);
    let ghost lv = split_lines_spec(data@);
    proof {
        assert(lines@.map(|i: int, p: String| p@) == lv);
        assert(lines@.len() == lv.len());
    }
    if lines.len() < 5 {
        return Err(BlogError::new(String::from_str("Page header is incomplete")));
    }
    proof {
        assert(lines@[0]@ == lv[0]);
        assert(lines@[4]@ == lv[4]);
    }
    if !str_eq(trim(lines[0].as_str()), "---") {
        return Err(
            BlogError::new(
                String::from_str("Page start marker missing or formatted incorrectly"),
            ),
        );
    }
    if !str_eq(trim(lines[4].as_str()), "---") {
        return Err(
            BlogError::new(String::from_str("Page end marker missing or formatted incorrectly")),
        );
    }
    let mut seen_draft = false;
    let mut seen_index = false;
    let mut seen_title = false;
    let mut draft = false;
    let mut index = false;
    let mut title = String::new();
    let mut i: usize = 1;
    while i < 4
        invariant
            lines@.len() == lv.len(),
            lines@.map(|k: int, p: String| p@) == lv,
            lv.len() >= 5,
            1 <= i <= 4,
            page_fields_spec(lv, 1, page_acc_init()) == page_fields_spec(
                lv,
                i as int,
                PageAcc { seen_draft, seen_index, seen_title, draft, index, title: title@ },
            ),
        decreases 4 - i,
    {
        proof {
            assert(lines@[i as int]@ == lv[i as int]);
        }
        let ghost acc = PageAcc {
            seen_draft,
            seen_index,
            seen_title,
            draft,
            index,
            title: title@,
        };
        let line = &lines[i];
        let n = line.as_str().unicode_len();
        match find_char(line.as_str(), ':') {
            None => {
                let mut m = String::from_str("Invalid page header line: '");
                m.append(line.as_str());
                m.append("'");
                proof {
                    reveal_strlit("Invalid page header line: '");
                    reveal_strlit("'");
                    assert(m@ =~= page_invalid_line_msg(lv[i as int]));
                }
                return Err(BlogError::new(m));
            },
            Some(j) => {
                let key = line.as_str().substring_char(0, j);
                let value = line.as_str().substring_char(j + 1, n);
                let ghost kv = lv[i as int].subrange(0, j as int);
                let ghost vv = lv[i as int].subrange(j + 1, lv[i as int].len() as int);
                proof {
                    assert(key@ == kv);
                    assert(value@ == vv);
                }
                if str_eq(key, "draft") {
                    if seen_draft {
                        let mut m = String::from_str("Duplicate page header field found: '");
                        m.append(key);
                        m.append("'");
                        proof {
                            reveal_strlit("Duplicate page header field found: '");
                            reveal_strlit("'");
                            assert(m@ =~= page_dup_field_msg(kv));
                        }
                        return Err(BlogError::new(m));
                    }
                    match parse_draft(value) {
                        Ok(b) => {
                            draft = b;
                            seen_draft = true;
                        },
                        Err(e) => {
                            return Err(e);
                        },
                    }
                } else if str_eq(key, "index") {
                    if seen_index {
                        let mut m = String::from_str("Duplicate page header field found: '");
                        m.append(key);
                        m.append("'");
                        proof {
                            reveal_strlit("Duplicate page header field found: '");
                            reveal_strlit("'");
                            assert(m@ =~= page_dup_field_msg(kv));
                        }
                        return Err(BlogError::new(m));
                    }
                    match parse_index(value) {
                        Ok(b) => {
                            index = b;
                            seen_index = true;
                        },
                        Err(e) => {
                            return Err(e);
                        },
                    }
                } else if str_eq(key, "title") {
                    if seen_title {
                        let mut m = String::from_str("Duplicate page header field found: '");
                        m.append(key);
                        m.append("'");
                        proof {
                            reveal_strlit("Duplicate page header field found: '");
                            reveal_strlit("'");
                            assert(m@ =~= page_dup_field_msg(kv));
                        }
                        return Err(BlogError::new(m));
                    }
                    match parse_title(value) {
                        Ok(t) => {
                            title = t;
                            seen_title = true;
                        },
                        Err(e) => {
                            return Err(e);
                        },
                    }
                } else {
                    let mut m = String::from_str("Unsupported page header field: '");
                    m.append(key);
                    m.append("'");
                    proof {
                        reveal_strlit("Unsupported page header field: '");
                        reveal_strlit("'");
                        assert(m@ =~= page_unsupported_field_msg(kv));
                    }
                    return Err(BlogError::new(m));
                }
            },
        }
        i = i + 1;
    }
    let mut tail: Vec<String> = Vec::new();
    let mut k: usize = 5;
    while k < lines.len()
        invariant
            lines@.len() == lv.len(),
            lines@.map(|t: int, p: String| p@) == lv,
            5 <= k <= lines@.len(),
            tail@.map(|t: int, p: String| p@) == lv.skip(5).take(k - 5),
        decreases lines@.len() - k,
    {
        proof {
            assert(lines@[k as int]@ == lv[k as int]);
        }
        tail.push(lines[k].clone());
        proof {
            assert(tail@.map(|t: int, p: String| p@) =~= lv.skip(5).take(k + 1 - 5));
        }
        k = k + 1;
    }
    proof {
        assert(lv.skip(5).take(lv.len() - 5) =~= lv.skip(5));
    }
    let content = join_strings(&tail, "\n");
    proof {
        reveal_strlit("\n");
        assert("\n"@ =~= seq!['\n']);
    }
    let mut page = Page::default();
    page.title = title;
    page.draft = draft;
    page.index = index;
    page.content = content;
    Ok(page)
}

} // verus!
