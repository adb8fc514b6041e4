//! Properties that relate the parsers' results for whole families of inputs.
use vstd::prelude::*;
use crate::ParseError;
use crate::entry::{AddInfoView, EntryView, block_name, spec_entry, spec_follows};
use crate::flake_ref::{FlakeRefView, provider_of, skip_query, spec_dated, spec_flake_ref};
use crate::scan::{
    count_char, last_index, lemma_count_absent, lemma_count_concat, lemma_find_first,
    lemma_last_index_marker, lemma_scan_to_first, lemma_space_end_first, is_space, occurs_at,
    scan_to, space0, tag, take_until,
};

verus! {

/// No `/`, `?` or newline: what may stand between the slashes of a locator.
pub open spec fn is_segment(x: Seq<char>) -> bool {
    forall|i: int| 0 <= i < x.len() ==> x[i] != '/' && x[i] != '?' && x[i] != '\n'
}

proof fn lemma_colon_split(t: Seq<char>, rest: Seq<char>)
    requires
        forall|i: int| 0 <= i < t.len() ==> t[i] != ':',
    ensures
        take_until(t + ":"@ + rest, ":"@) == Some((t, ":"@ + rest)),
{
    reveal_strlit(":");
    let s = t + ":"@ + rest;
    assert forall|j: int| 0 <= j < t.len() implies !occurs_at(s, ":"@, j) by {
        if occurs_at(s, ":"@, j) {
            assert(s.subrange(j, j + 1)[0] == s[j]);
        }
    }
    assert(s.subrange(t.len() as int, t.len() + 1int) =~= ":"@);
    lemma_find_first(s, ":"@, 0, t.len() as int);
    assert(s.take(t.len() as int) =~= t);
    assert(s.skip(t.len() as int) =~= ":"@ + rest);
}

proof fn lemma_provider_has_no_colon(t: Seq<char>)
    requires
        provider_of(t) is Some,
    ensures
        forall|i: int| 0 <= i < t.len() ==> t[i] != ':',
{
    reveal_strlit("github");
    reveal_strlit("gitlab");
}

proof fn lemma_locator_with_tail(
    t: Seq<char>,
    org: Seq<char>,
    name: Seq<char>,
    commit: Seq<char>,
    tail: Seq<char>,
)
    requires
        provider_of(t) is Some,
        is_segment(org),
        is_segment(name),
        is_segment(commit),
        tail.len() == 0 || (tail[0] == '?' && forall|i: int|
            1 <= i < tail.len() ==> tail[i] != '\r' && tail[i] != '\n'),
    ensures
        spec_flake_ref(t + ":"@ + (org + "/"@ + name + "/"@ + commit) + tail) == Ok::<
            _,
            ParseError,
        >(
            (
                Seq::<char>::empty(),
                FlakeRefView {
                    ref_type: provider_of(t)->0,
                    repo: org + "/"@ + name,
                    commit: commit,
                },
            ),
        ),
{
    reveal_strlit(":");
    reveal_strlit("/");
    let body = org + "/"@ + name + "/"@ + commit;
    let s = t + ":"@ + body + tail;
    lemma_provider_has_no_colon(t);
    assert(s =~= t + ":"@ + (body + tail));
    lemma_colon_split(t, body + tail);
    let r2 = (":"@ + (body + tail)).skip(1);
    assert(r2 =~= body + tail);
    lemma_scan_to_first(r2, 0, body.len() as int, '?', '\n');
    assert(r2.take(body.len() as int) =~= body);
    assert(r2.skip(body.len() as int) =~= tail);
    lemma_count_absent(org, '/');
    lemma_count_absent(name, '/');
    lemma_count_absent(commit, '/');
    let one = "/"@;
    assert(one.drop_last() =~= Seq::<char>::empty());
    assert(one.last() == '/');
    assert(count_char(Seq::<char>::empty(), '/') == 0);
    assert(count_char(one, '/') == 1);
    lemma_count_concat(org, one, '/');
    lemma_count_concat(org + one, name, '/');
    lemma_count_concat(org + one + name, one, '/');
    lemma_count_concat(org + one + name + one, commit, '/');
    assert(count_char(body, '/') == 2);
    let head = org + one + name;
    assert(one =~= seq!['/']);
    lemma_last_index_marker(head, '/', commit);
    assert(body =~= head + seq!['/'] + commit);
    assert(last_index(body, '/') == head.len());
    assert(body.take(head.len() as int) =~= head);
    assert(body.skip(head.len() + 1int) =~= commit);
    if tail.len() > 0 {
        lemma_scan_to_first(tail, 1, tail.len() as int, '\r', '\n');
        assert(tail.skip(tail.len() as int) =~= Seq::<char>::empty());
    } else {
        assert(skip_query(tail) =~= Seq::<char>::empty());
    }
}

/// A locator `<provider>:<org>/<name>/<commit>` whose three segments hold no
/// `/`, `?` or newline reads as that provider, repository `<org>/<name>` and
/// that commit, and the whole text is consumed. A `?query` after it (up to
/// the end of the line) changes nothing in the result.
pub proof fn lemma_locator_round_trip(
    t: Seq<char>,
    org: Seq<char>,
    name: Seq<char>,
    commit: Seq<char>,
    query: Seq<char>,
)
    requires
        provider_of(t) is Some,
        is_segment(org),
        is_segment(name),
        is_segment(commit),
        forall|i: int| 0 <= i < query.len() ==> query[i] != '\r' && query[i] != '\n',
    ensures
        spec_flake_ref(t + ":"@ + org + "/"@ + name + "/"@ + commit) == Ok::<_, ParseError>(
            (
                Seq::<char>::empty(),
                FlakeRefView {
                    ref_type: provider_of(t)->0,
                    repo: org + "/"@ + name,
                    commit: commit,
                },
            ),
        ),
        spec_flake_ref(t + ":"@ + org + "/"@ + name + "/"@ + commit + "?"@ + query)
            == spec_flake_ref(t + ":"@ + org + "/"@ + name + "/"@ + commit),
{
    reveal_strlit("?");
    let body = org + "/"@ + name + "/"@ + commit;
    let empty = Seq::<char>::empty();
    lemma_locator_with_tail(t, org, name, commit, empty);
    assert(t + ":"@ + body + empty =~= t + ":"@ + org + "/"@ + name + "/"@ + commit);
    let tail = "?"@ + query;
    lemma_locator_with_tail(t, org, name, commit, tail);
    assert(t + ":"@ + body + tail =~= t + ":"@ + org + "/"@ + name + "/"@ + commit + "?"@
        + query);
}

/// A locator whose body (the text after the first `:` up to a `?`, a
/// newline or the end) holds no `/`, one, or three or more, is refused.
pub proof fn lemma_locator_slash_count(t: Seq<char>, body: Seq<char>, tail: Seq<char>)
    requires
        forall|i: int| 0 <= i < t.len() ==> t[i] != ':',
        forall|i: int| 0 <= i < body.len() ==> body[i] != '?' && body[i] != '\n',
        count_char(body, '/') != 2,
        tail.len() == 0 || tail[0] == '?' || tail[0] == '\n',
    ensures
        spec_flake_ref(t + ":"@ + body + tail) is Err,
{
    reveal_strlit(":");
    assert(t + ":"@ + body + tail =~= t + ":"@ + (body + tail));
    lemma_colon_split(t, body + tail);
    let r2 = (":"@ + (body + tail)).skip(1);
    assert(r2 =~= body + tail);
    lemma_scan_to_first(r2, 0, body.len() as int, '?', '\n');
    assert(r2.take(body.len() as int) =~= body);
}

/// A provider tag other than `github` and `gitlab` is refused, whatever
/// follows the `:`.
pub proof fn lemma_unknown_provider(t: Seq<char>, rest: Seq<char>)
    requires
        forall|i: int| 0 <= i < t.len() ==> t[i] != ':',
        provider_of(t) is None,
    ensures
        spec_flake_ref(t + ":"@ + rest) == Err::<(Seq<char>, FlakeRefView), _>(ParseError::Provider),
{
    lemma_colon_split(t, rest);
}

proof fn lemma_until_quote(path: Seq<char>, rest: Seq<char>)
    requires
        forall|i: int| 0 <= i < path.len() ==> path[i] != '\'',
    ensures
        take_until(path + "'"@ + rest, "'"@) == Some((path, "'"@ + rest)),
{
    reveal_strlit("'");
    let s = path + "'"@ + rest;
    assert forall|j: int| 0 <= j < path.len() implies !occurs_at(s, "'"@, j) by {
        if occurs_at(s, "'"@, j) {
            assert(s.subrange(j, j + 1)[0] == s[j]);
        }
    }
    assert(s.subrange(path.len() as int, path.len() + 1int) =~= "'"@);
    lemma_find_first(s, "'"@, 0, path.len() as int);
    assert(s.take(path.len() as int) =~= path);
    assert(s.skip(path.len() as int) =~= "'"@ + rest);
}

/// The first line of an added block, for a name that holds no `':`.
proof fn lemma_added_header(name: Seq<char>, body: Seq<char>)
    requires
        forall|i: int| !occurs_at(name, "':"@, i),
    ensures
        tag("• Added input '"@ + name + "':\n"@ + body, "• Updated input '"@) is None,
        tag("• Added input '"@ + name + "':\n"@ + body, "• Added input '"@) == Some(
            name + "':\n"@ + body,
        ),
        block_name(name + "':\n"@ + body) == Some((name, body)),
{
    reveal_strlit("• Added input '");
    reveal_strlit("• Updated input '");
    reveal_strlit("':");
    reveal_strlit("':\n");
    reveal_strlit("\n");
    let added = "• Added input '"@;
    let updated = "• Updated input '"@;
    let x = name + "':\n"@ + body;
    let s = added + x;
    assert(s =~= "• Added input '"@ + name + "':\n"@ + body);
    if updated.len() <= s.len() && s.take(updated.len() as int) == updated {
        assert(s.take(updated.len() as int)[2] == updated[2]);
    }
    assert(s.take(added.len() as int) =~= added);
    assert(s.skip(added.len() as int) =~= x);
    let pat = "':"@;
    let n = name.len() as int;
    assert forall|j: int| 0 <= j < n implies !occurs_at(x, pat, j) by {
        if occurs_at(x, pat, j) {
            if j + 2 <= n {
                assert(x.subrange(j, j + 2) =~= name.subrange(j, j + 2));
                assert(occurs_at(name, pat, j));
            } else {
                assert(x.subrange(j, j + 2)[1] == x[j + 1]);
            }
        }
    }
    assert(x.subrange(n, n + 2) =~= pat);
    lemma_find_first(x, pat, 0, n);
    assert(x.take(n) =~= name);
    assert(x.skip(n).skip(2) =~= "\n"@ + body);
    assert(("\n"@ + body).skip(1) =~= body);
}

/// An added block whose body is one `follows '<path>'` line (the path holds
/// no `'`) reads as a follows entry that carries the block's name and the
/// path as written.
pub proof fn lemma_added_follows(
    name: Seq<char>,
    indent: Seq<char>,
    path: Seq<char>,
    rest: Seq<char>,
)
    requires
        forall|i: int| !occurs_at(name, "':"@, i),
        forall|i: int| 0 <= i < indent.len() ==> is_space(indent[i]),
        forall|i: int| 0 <= i < path.len() ==> path[i] != '\'',
    ensures
        spec_entry(
            "• Added input '"@ + name + "':\n"@ + indent + "follows '"@ + path + "'\n"@ + rest,
        ) == Ok::<_, ParseError>((rest, EntryView::Added(name, AddInfoView::Follows(path)))),
{
    reveal_strlit("follows '");
    reveal_strlit("follows ");
    reveal_strlit("'\n");
    reveal_strlit("'");
    reveal_strlit("\n");
    let line = "follows '"@ + path + "'\n"@ + rest;
    let body = indent + line;
    lemma_added_header(name, body);
    assert("• Added input '"@ + name + "':\n"@ + indent + "follows '"@ + path + "'\n"@ + rest
        =~= "• Added input '"@ + name + "':\n"@ + body);
    lemma_space_end_first(body, 0, indent.len() as int);
    assert(space0(body) =~= line);
    assert(line.take(8) =~= "follows "@);
    let r1 = line.skip(8);
    assert(r1 =~= "'"@ + (path + "'"@ + ("\n"@ + rest)));
    assert(r1.take(1) =~= "'"@);
    assert(r1.skip(1) =~= path + "'"@ + ("\n"@ + rest));
    lemma_until_quote(path, "\n"@ + rest);
    assert(("'"@ + ("\n"@ + rest)).skip(1) =~= "\n"@ + rest);
    assert(("\n"@ + rest).skip(1) =~= rest);
}

/// An added block whose body is no `follows` line but reads as a dated
/// locator reads as a new entry with that locator.
pub proof fn lemma_added_new(name: Seq<char>, body: Seq<char>)
    requires
        forall|i: int| !occurs_at(name, "':"@, i),
        spec_follows(body) is None,
        spec_dated(body) is Ok,
    ensures
        spec_entry("• Added input '"@ + name + "':\n"@ + body) == Ok::<_, ParseError>(
            (
                spec_dated(body)->Ok_0.0,
                EntryView::Added(name, AddInfoView::New(spec_dated(body)->Ok_0.1)),
            ),
        ),
{
    lemma_added_header(name, body);
}

} // verus!
