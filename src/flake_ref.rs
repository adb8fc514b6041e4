//! Locators (`<provider>:<org>/<repo>/<commit>`) and dated locators
//! (`'<locator>' (<date>)` on a line of their own).
use vstd::prelude::*;
use vstd::string::*;
use crate::ParseError;
use crate::scan::{
    count_char, count_of, delimited, find_either, last_index, last_index_of, lemma_find_from_bounds,
    line_ending, parse_delimited, parse_line_ending, parse_space0, parse_space1, parse_take_until, same_text, scan_to, space0, space1, suffix, take_until,
};

verus! {

/// The hosting providers a locator may name.
#[derive(Debug, Clone, Copy, PartialEq, Eq, Structural)]
pub enum FlakeRefType {
    Github,
    Gitlab,
}

/// The provider that the tag `t` names.
pub open spec fn provider_of(t: Seq<char>) -> Option<FlakeRefType> {
    if t == "github"@ {
        Some(FlakeRefType::Github)
    } else if t == "gitlab"@ {
        Some(FlakeRefType::Gitlab)
    } else {
        None
    }
}

impl FlakeRefType {
    /// The provider that the tag `t` names; any other tag is refused.
    pub fn from_tag(t: &str) -> (r: Result<FlakeRefType, ParseError>)
        ensures
            match provider_of(t@) {
                Some(p) => r == Ok::<FlakeRefType, ParseError>(p),
                None => r == Err::<FlakeRefType, ParseError>(ParseError::Provider),
            },
    {
        if same_text(t, "github") {
            Ok(FlakeRefType::Github)
        } else if same_text(t, "gitlab") {
            Ok(FlakeRefType::Gitlab)
        } else {
            Err(ParseError::Provider)
        }
    }
}

/// A commit of a repository at a hosting provider.
#[derive(Debug, PartialEq, Eq)]
pub struct FlakeRef {
    pub ref_type: FlakeRefType,
    /// `<org>/<repo>`.
    pub repo: String,
    pub commit: String,
}

/// A locator as plain values.
pub struct FlakeRefView {
    pub ref_type: FlakeRefType,
    pub repo: Seq<char>,
    pub commit: Seq<char>,
}

impl View for FlakeRef {
    type V = FlakeRefView;

    open spec fn view(&self) -> FlakeRefView {
        FlakeRefView { ref_type: self.ref_type, repo: self.repo@, commit: self.commit@ }
    }
}

/// A locator together with the date it was recorded.
#[derive(Debug, PartialEq, Eq)]
pub struct DatedFlakeRef {
    pub flake_ref: FlakeRef,
    pub date: String,
}

/// A dated locator as plain values.
pub struct DatedFlakeRefView {
    pub flake_ref: FlakeRefView,
    pub date: Seq<char>,
}

impl View for DatedFlakeRef {
    type V = DatedFlakeRefView;

    open spec fn view(&self) -> DatedFlakeRefView {
        DatedFlakeRefView { flake_ref: self.flake_ref@, date: self.date@ }
    }
}

/// What remains of `s` once an optional `?query` is skipped: the query runs
/// up to the end of its line.
pub open spec fn skip_query(s: Seq<char>) -> Seq<char> {
    if s.len() > 0 && s[0] == '?' {
        s.skip(scan_to(s, 1, '\r', '\n'))
    } else {
        s
    }
}

/// The locator at the start of `s`: a provider tag up to the first `:`, then
/// a body up to the first `?` or newline that holds exactly two `/`, split at
/// the last of them into repository and commit, then an ignored `?query`.
pub open spec fn spec_flake_ref(s: Seq<char>) -> Result<(Seq<char>, FlakeRefView), ParseError> {
    match take_until(s, ":"@) {
        None => Err(ParseError::Locator),
        Some((t, r1)) => match provider_of(t) {
            None => Err(ParseError::Provider),
            Some(p) => {
                let r2 = r1.skip(1);
                let e = scan_to(r2, 0, '?', '\n');
                let body = r2.take(e);
                if e == 0 || count_char(body, '/') != 2 {
                    Err(ParseError::Locator)
                } else {
                    let k = last_index(body, '/');
                    Ok(
                        (
                            skip_query(r2.skip(e)),
                            FlakeRefView { ref_type: p, repo: body.take(k), commit: body.skip(k + 1) },
                        ),
                    )
                }
            },
        },
    }
}

/// The dated locator at the start of `s`: optional spaces, the quoted
/// locator, spaces, the date in parentheses, and a line ending.
pub open spec fn spec_dated(s: Seq<char>) -> Result<(Seq<char>, DatedFlakeRefView), ParseError> {
    match delimited(space0(s), "'"@, "'"@) {
        None => Err(ParseError::Block),
        Some((url, r1)) => match space1(r1) {
            None => Err(ParseError::Block),
            Some(r2) => match delimited(r2, "("@, ")"@) {
                None => Err(ParseError::Block),
                Some((date, r3)) => match line_ending(r3) {
                    None => Err(ParseError::Block),
                    Some(r4) => match spec_flake_ref(url) {
                        Err(e) => Err(e),
                        Ok((_, f)) => Ok((r4, DatedFlakeRefView { flake_ref: f, date })),
                    },
                },
            },
        },
    }
}

pub proof fn lemma_last_index_bounds(s: Seq<char>, c: char)
    ensures
        -1 <= last_index(s, c) < s.len(),
        last_index(s, c) >= 0 ==> s[last_index(s, c)] == c,
        count_char(s, c) > 0 ==> last_index(s, c) >= 0,
    decreases s.len(),
{
    if s.len() > 0 {
        lemma_last_index_bounds(s.drop_last(), c);
    }
}

impl FlakeRef {
    /// Parses the locator at the start of `input`; returns what follows it.
    pub fn parse_from(input: &str) -> (r: Result<(&str, FlakeRef), ParseError>)
        ensures
            match r {
                Ok((rest, f)) => spec_flake_ref(input@) == Ok::<_, ParseError>((rest@, f@)),
                Err(e) => spec_flake_ref(input@) == Err::<(Seq<char>, FlakeRefView), _>(e),
            },
    {
        let (t, r1) = match parse_take_until(input, ":") {
            Some(p) => p,
            None => return Err(ParseError::Locator),
        };
        let ref_type = match FlakeRefType::from_tag(t) {
            Ok(p) => p,
            Err(e) => return Err(e),
        };
        proof {
            reveal_strlit(":");
            lemma_find_from_bounds(input@, ":"@, 0);
        }
        let r2 = suffix(r1, 1);
        let e = find_either(r2, 0, '?', '\n');
        let body = r2.substring_char(0, e);
        assert(body@ =~= r2@.take(e as int));
        if e == 0 || count_of(body, '/') != 2 {
            return Err(ParseError::Locator);
        }
        let k = match last_index_of(body, '/') {
            Some(k) => k,
            None => {
                proof {
                    lemma_last_index_bounds(body@, '/');
                }
                return Err(ParseError::Locator);
            },
        };
        let r3 = suffix(r2, e);
        let n3 = r3.unicode_len();
        let rest = if n3 > 0 && r3.get_char(0) == '?' {
            let q = find_either(r3, 1, '\r', '\n');
            suffix(r3, q)
        } else {
            r3
        };
        let bn = body.unicode_len();
        let repo = body.substring_char(0, k);
        let commit = body.substring_char(k + 1, bn);
        assert(repo@ =~= body@.take(k as int));
        assert(commit@ =~= body@.skip(k + 1));
        Ok((rest, FlakeRef { ref_type, repo: String::from_str(repo), commit: String::from_str(commit) }))
    }
}

/// The web address of the repository at its provider.
pub open spec fn spec_repo_url(f: FlakeRefView) -> Seq<char> {
    match f.ref_type {
        FlakeRefType::Github => "https://github.com/"@ + f.repo,
        FlakeRefType::Gitlab => "https://gitlab.com/"@ + f.repo,
    }
}

/// The commit abbreviated to its first eight characters.
pub open spec fn spec_sha(f: FlakeRefView) -> Seq<char> {
    f.commit.take(8)
}

impl FlakeRef {
    /// The web address of the repository at its provider.
    pub fn repo_url(&self) -> (r: String)
        ensures
            r@ == spec_repo_url(self@),
    {
        let mut r = match self.ref_type {
            FlakeRefType::Github => String::from_str("https://github.com/"),
            FlakeRefType::Gitlab => String::from_str("https://gitlab.com/"),
        };
        r.append(self.repo.as_str());
        r
    }

    /// The first eight characters of the commit.
    pub fn sha(&self) -> (r: String)
        requires
            self.commit@.len() >= 8,
        ensures
            r@ == spec_sha(self@),
    {
        let c = self.commit.as_str().substring_char(0, 8);
        assert(c@ =~= self.commit@.take(8));
        String::from_str(c)
    }
}

impl DatedFlakeRef {
    /// Parses a dated locator and its line ending at the start of `input`;
    /// returns what follows them.
    pub fn parse_from(input: &str) -> (r: Result<(&str, DatedFlakeRef), ParseError>)
        ensures
            match r {
                Ok((rest, d)) => spec_dated(input@) == Ok::<_, ParseError>((rest@, d@)),
                Err(e) => spec_dated(input@) == Err::<(Seq<char>, DatedFlakeRefView), _>(e),
            },
    {
        let s = parse_space0(input);
        let (url, r1) = match parse_delimited(s, "'", "'") {
            Some(p) => p,
            None => return Err(ParseError::Block),
        };
        let r2 = match parse_space1(r1) {
            Some(r) => r,
            None => return Err(ParseError::Block),
        };
        let (date, r3) = match parse_delimited(r2, "(", ")") {
            Some(p) => p,
            None => return Err(ParseError::Block),
        };
        let r4 = match parse_line_ending(r3) {
            Some(r) => r,
            None => return Err(ParseError::Block),
        };
        match FlakeRef::parse_from(url) {
            Ok((_, flake_ref)) => Ok((r4, DatedFlakeRef { flake_ref, date: String::from_str(date) })),
            Err(e) => Err(e),
        }
    }
}

} // verus!
