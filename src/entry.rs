//! Change blocks ("Updated input" and "Added input"), the document that
//! holds them, and the Markdown line that each one renders to.
use vstd::prelude::*;
use vstd::string::*;
use crate::ParseError;
use crate::flake_ref::{
    DatedFlakeRef, DatedFlakeRefView, FlakeRefView, spec_dated, spec_repo_url, spec_sha,
};
use crate::scan::{
    delimited, lemma_find_from_bounds, line_ending, parse_delimited, parse_line_ending,
    parse_space0, parse_tag, parse_take_until, same_text, space0, suffix, tag, take_until,
};

verus! {

/// The two sides of an update.
#[derive(Debug, PartialEq, Eq)]
pub struct UpdateInfo {
    pub from: DatedFlakeRef,
    pub to: DatedFlakeRef,
}

/// An update as plain values.
pub struct UpdateInfoView {
    pub from: DatedFlakeRefView,
    pub to: DatedFlakeRefView,
}

impl View for UpdateInfo {
    type V = UpdateInfoView;

    open spec fn view(&self) -> UpdateInfoView {
        UpdateInfoView { from: self.from@, to: self.to@ }
    }
}

/// What an added input is: one that follows another input's pin, or a new
/// dated locator.
#[derive(Debug, PartialEq, Eq)]
pub enum AddInfo {
    Follows(String),
    New(DatedFlakeRef),
}

/// An added input as plain values.
pub enum AddInfoView {
    Follows(Seq<char>),
    New(DatedFlakeRefView),
}

impl View for AddInfo {
    type V = AddInfoView;

    open spec fn view(&self) -> AddInfoView {
        match self {
            AddInfo::Follows(p) => AddInfoView::Follows(p@),
            AddInfo::New(d) => AddInfoView::New(d@),
        }
    }
}

/// One change block, with the name of the input it is about.
#[derive(Debug, PartialEq, Eq)]
pub enum Entry {
    Updated(String, UpdateInfo),
    Added(String, AddInfo),
}

/// An entry as plain values.
pub enum EntryView {
    Updated(Seq<char>, UpdateInfoView),
    Added(Seq<char>, AddInfoView),
}

impl View for Entry {
    type V = EntryView;

    open spec fn view(&self) -> EntryView {
        match self {
            Entry::Updated(n, u) => EntryView::Updated(n@, u@),
            Entry::Added(n, a) => EntryView::Added(n@, a@),
        }
    }
}

/// The views of a sequence of entries.
pub open spec fn entries_view(v: Seq<Entry>) -> Seq<EntryView> {
    v.map_values(|e: Entry| e@)
}

/// The body of an update: the old dated locator, optional spaces, an arrow,
/// and the new dated locator.
pub open spec fn spec_update(s: Seq<char>) -> Result<(Seq<char>, UpdateInfoView), ParseError> {
    match spec_dated(s) {
        Err(e) => Err(e),
        Ok((r1, from)) => match tag(space0(r1), "→"@) {
            None => Err(ParseError::Block),
            Some(r2) => match spec_dated(r2) {
                Err(e) => Err(e),
                Ok((r3, to)) => Ok((r3, UpdateInfoView { from, to })),
            },
        },
    }
}

/// The `follows '<path>'` line of an added input: what follows it, and the path.
pub open spec fn spec_follows(s: Seq<char>) -> Option<(Seq<char>, Seq<char>)> {
    match tag(space0(s), "follows "@) {
        None => None,
        Some(r1) => match delimited(r1, "'"@, "'"@) {
            None => None,
            Some((path, r2)) => match line_ending(r2) {
                None => None,
                Some(r3) => Some((r3, path)),
            },
        },
    }
}

/// The body of an added input: a `follows` line if there is one, else a
/// dated locator.
pub open spec fn spec_add(s: Seq<char>) -> Result<(Seq<char>, AddInfoView), ParseError> {
    match spec_follows(s) {
        Some((r, path)) => Ok((r, AddInfoView::Follows(path))),
        None => match spec_dated(s) {
            Err(e) => Err(e),
            Ok((r, d)) => Ok((r, AddInfoView::New(d))),
        },
    }
}

/// The rest of a block's first line after its opening tag: the name up to
/// the first `':`, then that `':` and a line ending.
pub open spec fn block_name(s: Seq<char>) -> Option<(Seq<char>, Seq<char>)> {
    match take_until(s, "':"@) {
        None => None,
        Some((name, r1)) => match line_ending(r1.skip(2)) {
            None => None,
            Some(r2) => Some((name, r2)),
        },
    }
}

/// One change block at the start of `s`. A block that opens with the
/// update tag is an update or nothing; otherwise an added input is tried.
pub open spec fn spec_entry(s: Seq<char>) -> Result<(Seq<char>, EntryView), ParseError> {
    match tag(s, "• Updated input '"@) {
        Some(r) => match block_name(r) {
            None => Err(ParseError::Block),
            Some((name, r2)) => match spec_update(r2) {
                Err(e) => Err(e),
                Ok((r3, u)) => Ok((r3, EntryView::Updated(name, u))),
            },
        },
        None => match tag(s, "• Added input '"@) {
            None => Err(ParseError::Block),
            Some(r) => match block_name(r) {
                None => Err(ParseError::Block),
                Some((name, r2)) => match spec_add(r2) {
                    Err(e) => Err(e),
                    Ok((r3, a)) => Ok((r3, EntryView::Added(name, a))),
                },
            },
        },
    }
}

/// `s` after the title line and one blank line.
pub open spec fn spec_header(s: Seq<char>) -> Result<Seq<char>, ParseError> {
    match tag(s, "Flake lock file updates:"@) {
        None => Err(ParseError::Header),
        Some(r1) => match line_ending(r1) {
            None => Err(ParseError::Header),
            Some(r2) => match line_ending(r2) {
                None => Err(ParseError::Header),
                Some(r3) => Ok(r3),
            },
        },
    }
}

/// The blocks at the start of `s`, in order, up to the first point where no
/// block can be read; and the text from that point on.
pub open spec fn spec_entries(s: Seq<char>) -> (Seq<EntryView>, Seq<char>)
    decreases s.len(),
{
    match spec_entry(s) {
        Ok((r, e)) => if r.len() < s.len() {
            let (es, rest) = spec_entries(r);
            (seq![e] + es, rest)
        } else {
            (seq![], s)
        },
        Err(_) => (seq![], s),
    }
}

/// Parses the title line and the blank line after it; returns what follows.
pub fn parse_header(input: &str) -> (r: Result<(&str, ()), ParseError>)
    ensures
        match r {
            Ok((rest, _)) => spec_header(input@) == Ok::<_, ParseError>(rest@),
            Err(e) => spec_header(input@) == Err::<Seq<char>, _>(e),
        },
{
    let r1 = match parse_tag(input, "Flake lock file updates:") {
        Some(r) => r,
        None => return Err(ParseError::Header),
    };
    let r2 = match parse_line_ending(r1) {
        Some(r) => r,
        None => return Err(ParseError::Header),
    };
    match parse_line_ending(r2) {
        Some(r3) => Ok((r3, ())),
        None => Err(ParseError::Header),
    }
}

fn parse_block_name(s: &str) -> (r: Option<(&str, &str)>)
    ensures
        match r {
            Some((name, rest)) => block_name(s@) == Some((name@, rest@)),
            None => block_name(s@) is None,
        },
{
    let (name, r1) = match parse_take_until(s, "':") {
        Some(p) => p,
        None => return None,
    };
    proof {
        reveal_strlit("':");
        lemma_find_from_bounds(s@, "':"@, 0);
    }
    match parse_line_ending(suffix(r1, 2)) {
        Some(r2) => Some((name, r2)),
        None => None,
    }
}

impl UpdateInfo {
    /// Parses the body of an update; returns what follows it.
    pub fn parse_from(input: &str) -> (r: Result<(&str, UpdateInfo), ParseError>)
        ensures
            match r {
                Ok((rest, u)) => spec_update(input@) == Ok::<_, ParseError>((rest@, u@)),
                Err(e) => spec_update(input@) == Err::<(Seq<char>, UpdateInfoView), _>(e),
            },
    {
        let (r1, from) = match DatedFlakeRef::parse_from(input) {
            Ok(p) => p,
            Err(e) => return Err(e),
        };
        let r2 = match parse_tag(parse_space0(r1), "→") {
            Some(r) => r,
            None => return Err(ParseError::Block),
        };
        match DatedFlakeRef::parse_from(r2) {
            Ok((r3, to)) => Ok((r3, UpdateInfo { from, to })),
            Err(e) => Err(e),
        }
    }
}

fn parse_follows(input: &str) -> (r: Option<(&str, &str)>)
    ensures
        match r {
            Some((rest, path)) => spec_follows(input@) == Some((rest@, path@)),
            None => spec_follows(input@) is None,
        },
{
    let r1 = match parse_tag(parse_space0(input), "follows ") {
        Some(r) => r,
        None => return None,
    };
    let (path, r2) = match parse_delimited(r1, "'", "'") {
        Some(p) => p,
        None => return None,
    };
    match parse_line_ending(r2) {
        Some(r3) => Some((r3, path)),
        None => None,
    }
}

impl AddInfo {
    /// Parses the body of an added input; returns what follows it.
    pub fn parse_from(input: &str) -> (r: Result<(&str, AddInfo), ParseError>)
        ensures
            match r {
                Ok((rest, a)) => spec_add(input@) == Ok::<_, ParseError>((rest@, a@)),
                Err(e) => spec_add(input@) == Err::<(Seq<char>, AddInfoView), _>(e),
            },
    {
        match parse_follows(input) {
            Some((rest, path)) => Ok((rest, AddInfo::Follows(String::from_str(path)))),
            None => match DatedFlakeRef::parse_from(input) {
                Ok((rest, d)) => Ok((rest, AddInfo::New(d))),
                Err(e) => Err(e),
            },
        }
    }
}

fn parse_updated(input: &str) -> (r: Option<Result<(&str, Entry), ParseError>>)
    ensures
        match r {
            None => tag(input@, "• Updated input '"@) is None,
            Some(Ok((rest, e))) => tag(input@, "• Updated input '"@) is Some && spec_entry(input@)
                == Ok::<_, ParseError>((rest@, e@)),
            Some(Err(e)) => tag(input@, "• Updated input '"@) is Some && spec_entry(input@) == Err::<
                (Seq<char>, EntryView),
                _,
            >(e),
        },
{
    let r1 = match parse_tag(input, "• Updated input '") {
        Some(r) => r,
        None => return None,
    };
    let (name, r2) = match parse_block_name(r1) {
        Some(p) => p,
        None => return Some(Err(ParseError::Block)),
    };
    match UpdateInfo::parse_from(r2) {
        Ok((r3, u)) => Some(Ok((r3, Entry::Updated(String::from_str(name), u)))),
        Err(e) => Some(Err(e)),
    }
}

fn parse_added(input: &str) -> (r: Result<(&str, Entry), ParseError>)
    requires
        tag(input@, "• Updated input '"@) is None,
    ensures
        match r {
            Ok((rest, e)) => spec_entry(input@) == Ok::<_, ParseError>((rest@, e@)),
            Err(e) => spec_entry(input@) == Err::<(Seq<char>, EntryView), _>(e),
        },
{
    let r1 = match parse_tag(input, "• Added input '") {
        Some(r) => r,
        None => return Err(ParseError::Block),
    };
    let (name, r2) = match parse_block_name(r1) {
        Some(p) => p,
        None => return Err(ParseError::Block),
    };
    match AddInfo::parse_from(r2) {
        Ok((r3, a)) => Ok((r3, Entry::Added(String::from_str(name), a))),
        Err(e) => Err(e),
    }
}

/// Parses one change block at the start of `input`; returns what follows it.
pub fn parse_entry(input: &str) -> (r: Result<(&str, Entry), ParseError>)
    ensures
        match r {
            Ok((rest, e)) => spec_entry(input@) == Ok::<_, ParseError>((rest@, e@)),
            Err(e) => spec_entry(input@) == Err::<(Seq<char>, EntryView), _>(e),
        },
{
    match parse_updated(input) {
        Some(r) => r,
        None => parse_added(input),
    }
}

/// Parses change blocks one after another until none can be read; returns
/// the text from that point on and the blocks in the order they appeared.
pub fn parse_entries(input: &str) -> (r: (&str, Vec<Entry>))
    ensures
        spec_entries(input@) == (entries_view(r.1@), r.0@),
{
    let mut entries: Vec<Entry> = Vec::new();
    let mut rest = input;
    let mut n = rest.unicode_len();
    loop
        invariant
            n == rest@.len(),
            spec_entries(input@) == (
                entries_view(entries@) + spec_entries(rest@).0,
                spec_entries(rest@).1,
            ),
        ensures
            spec_entries(rest@).0 =~= seq![],
            spec_entries(rest@).1 == rest@,
        decreases n,
    {
        match parse_entry(rest) {
            Ok((next, e)) => {
                let m = next.unicode_len();
                if m >= n {
                    break ;
                }
                proof {
                    let ghost old_entries = entries@;
                    assert(entries_view(old_entries.push(e)) =~= entries_view(old_entries) + seq![
                        e@,
                    ]);
                    assert(spec_entries(rest@).0 =~= seq![e@] + spec_entries(next@).0);
                    assert(entries_view(old_entries) + spec_entries(rest@).0 =~= entries_view(
                        old_entries.push(e),
                    ) + spec_entries(next@).0);
                }
                entries.push(e);
                rest = next;
                n = m;
            },
            Err(_) => break ,
        }
    }
    assert(entries_view(entries@) + seq![] =~= entries_view(entries@));
    (rest, entries)
}

/// Parses a whole notification: the title, the blank line, and the blocks
/// after them. Text after the last block that can be read ends the list and
/// is handed back.
pub fn parse_document(input: &str) -> (r: Result<(&str, Vec<Entry>), ParseError>)
    ensures
        match r {
            Ok((rest, es)) => spec_header(input@) matches Ok(body) && spec_entries(body) == (
                entries_view(es@),
                rest@,
            ),
            Err(e) => spec_header(input@) == Err::<Seq<char>, _>(e),
        },
{
    match parse_header(input) {
        Ok((body, _)) => Ok(parse_entries(body)),
        Err(e) => Err(e),
    }
}

/// The comparison link of an update, when both sides name the same
/// provider and repository.
pub open spec fn spec_diff_url(u: UpdateInfoView) -> Option<Seq<char>> {
    let a = u.from.flake_ref;
    let b = u.to.flake_ref;
    if a.ref_type == b.ref_type && a.repo == b.repo {
        Some(spec_repo_url(a) + "/compare/"@ + spec_sha(a) + "..."@ + spec_sha(b))
    } else {
        None
    }
}

/// Whether every commit that the entry's line abbreviates has eight
/// characters at least.
pub open spec fn spec_renderable(e: EntryView) -> bool {
    match e {
        EntryView::Updated(_, u) => u.from.flake_ref.commit.len() >= 8 && u.to.flake_ref.commit.len()
            >= 8,
        EntryView::Added(_, AddInfoView::New(d)) => d.flake_ref.commit.len() >= 8,
        EntryView::Added(_, AddInfoView::Follows(_)) => true,
    }
}

/// The Markdown line of an entry. An update whose sides differ in provider
/// or repository has no comparison link: its abbreviated commits then stand
/// as plain code.
pub open spec fn spec_summary(e: EntryView) -> Seq<char> {
    match e {
        EntryView::Updated(name, u) => {
            let shas = "`"@ + spec_sha(u.from.flake_ref) + "` ➡️ `"@ + spec_sha(u.to.flake_ref)
                + "`"@;
            let change = match spec_diff_url(u) {
                Some(url) => "["@ + shas + "]("@ + url + ")"@,
                None => shas,
            };
            " - Updated input [`"@ + name + "`]("@ + spec_repo_url(u.from.flake_ref) + "): "@
                + change + " <sub>("@ + u.from.date + " to "@ + u.to.date + ")<sub/>"@
        },
        EntryView::Added(_, AddInfoView::Follows(path)) => " - Added input (follows `"@ + path
            + "`)"@,
        EntryView::Added(_, AddInfoView::New(d)) => " - Added input [`"@ + spec_sha(d.flake_ref)
            + "`]("@ + spec_repo_url(d.flake_ref) + ") ("@ + d.date + ")"@,
    }
}

impl UpdateInfo {
    /// The comparison link between the two commits, when both sides name the
    /// same provider and repository.
    pub fn url(&self) -> (r: Option<String>)
        requires
            self.from.flake_ref.ref_type == self.to.flake_ref.ref_type
                && self.from.flake_ref.repo@ == self.to.flake_ref.repo@
                ==> self.from.flake_ref.commit@.len() >= 8 && self.to.flake_ref.commit@.len() >= 8,
        ensures
            match r {
                Some(u) => spec_diff_url(self@) == Some(u@),
                None => spec_diff_url(self@) is None,
            },
    {
        let a = &self.from.flake_ref;
        let b = &self.to.flake_ref;
        if a.ref_type != b.ref_type || !same_text(a.repo.as_str(), b.repo.as_str()) {
            return None;
        }
        let mut r = a.repo_url();
        r.append("/compare/");
        r.append(a.sha().as_str());
        r.append("...");
        r.append(b.sha().as_str());
        Some(r)
    }
}

impl Entry {
    /// Whether every commit that [`Entry::summary`] abbreviates has eight
    /// characters at least.
    pub fn is_renderable(&self) -> (r: bool)
        ensures
            r == spec_renderable(self@),
    {
        match self {
            Entry::Updated(_, u) => u.from.flake_ref.commit.as_str().unicode_len() >= 8
                && u.to.flake_ref.commit.as_str().unicode_len() >= 8,
            Entry::Added(_, AddInfo::New(d)) => d.flake_ref.commit.as_str().unicode_len() >= 8,
            Entry::Added(_, AddInfo::Follows(_)) => true,
        }
    }

    /// The entry as one Markdown line. An update across providers or
    /// repositories has no comparison link and renders without one.
    pub fn summary(&self) -> (r: String)
        requires
            spec_renderable(self@),
        ensures
            r@ == spec_summary(self@),
    {
        match self {
            Entry::Updated(name, info) => {
                let from = &info.from.flake_ref;
                let to = &info.to.flake_ref;
                let mut shas = String::from_str("`");
                shas.append(from.sha().as_str());
                shas.append("` ➡️ `");
                shas.append(to.sha().as_str());
                shas.append("`");
                let change = match info.url() {
                    Some(url) => {
                        let mut c = String::from_str("[");
                        c.append(shas.as_str());
                        c.append("](");
                        c.append(url.as_str());
                        c.append(")");
                        c
                    },
                    None => shas,
                };
                let mut r = String::from_str(" - Updated input [`");
                r.append(name.as_str());
                r.append("`](");
                r.append(from.repo_url().as_str());
                r.append("): ");
                r.append(change.as_str());
                r.append(" <sub>(");
                r.append(info.from.date.as_str());
                r.append(" to ");
                r.append(info.to.date.as_str());
                r.append(")<sub/>");
                r
            },
            Entry::Added(_, AddInfo::Follows(path)) => {
                let mut r = String::from_str(" - Added input (follows `");
                r.append(path.as_str());
                r.append("`)");
                r
            },
            Entry::Added(_, AddInfo::New(d)) => {
                let mut r = String::from_str(" - Added input [`");
                r.append(d.flake_ref.sha().as_str());
                r.append("`](");
                r.append(d.flake_ref.repo_url().as_str());
                r.append(") (");
                r.append(d.date.as_str());
                r.append(")");
                r
            },
        }
    }
}

} // verus!
