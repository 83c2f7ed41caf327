//! Parsing the comma-separated list of channel identifiers.
use vstd::prelude::*;
use vstd::string::*;
use crate::error::SyncError;

verus! {

/// What `str::trim` returns for a string: it depends on the characters alone.
pub uninterp spec fn trimmed(s: Seq<char>) -> Seq<char>;

/// Relies on str::trim: leading and trailing white space removed, so the result
/// is no longer than the input and the empty string stays empty.
#[verifier::external_body]
fn trim_str(s: &str) -> (r: String)
    ensures
        r@ == trimmed(s@),
        r@.len() <= s@.len(),
        s@.len() == 0 ==> r@.len() == 0,
{
    s.trim().to_string()
}

/// The pieces of `s` between occurrences of `sep`; `n` separators give `n + 1` pieces.
pub open spec fn split_on(s: Seq<char>, sep: char) -> Seq<Seq<char>>
    decreases s.len(),
{
    if s.len() == 0 {
        seq![Seq::<char>::empty()]
    } else {
        let rest = split_on(s.drop_last(), sep);
        if s.last() == sep {
            rest.push(Seq::<char>::empty())
        } else {
            rest.update(rest.len() - 1, rest.last().push(s.last()))
        }
    }
}

/// `pieces` without its empty members, order kept.
pub open spec fn keep_nonempty(pieces: Seq<Seq<char>>) -> Seq<Seq<char>>
    decreases pieces.len(),
{
    if pieces.len() == 0 {
        pieces
    } else {
        let rest = keep_nonempty(pieces.drop_last());
        if pieces.last().len() == 0 {
            rest
        } else {
            rest.push(pieces.last())
        }
    }
}

/// The channel identifiers named by `s`: its comma-separated pieces, trimmed,
/// with the empty ones left out.
pub open spec fn channel_ids(s: Seq<char>) -> Seq<Seq<char>> {
    keep_nonempty(split_on(s, ',').map_values(|p: Seq<char>| trimmed(p)))
}

/// The character sequences of a sequence of strings.
pub open spec fn views_of(v: Seq<String>) -> Seq<Seq<char>> {
    v.map_values(|x: String| x@)
}

/// Splits `input` at commas, trims each piece and keeps the non-empty ones, in
/// order; a list with none is refused.
pub fn parse_channel_list(input: &str) -> (r: Result<Vec<String>, SyncError>)
    ensures
        r is Ok <==> channel_ids(input@).len() > 0,
        r is Err ==> r == Err::<Vec<String>, SyncError>(SyncError::InvalidChannelList),
        r matches Ok(v) ==> views_of(v@) == channel_ids(input@),
        (forall|k: int| 0 <= k < input@.len() ==> input@[k] == ',') ==> r == Err::<
            Vec<String>,
            SyncError,
        >(SyncError::InvalidChannelList),
{
    let ghost only_commas = forall|k: int| 0 <= k < input@.len() ==> input@[k] == ',';
    let n = input.unicode_len();
    let mut ids: Vec<String> = Vec::new();
    let ghost mut done: Seq<Seq<char>> = Seq::empty();
    let mut start: usize = 0;
    let mut i: usize = 0;
    assert(input@.subrange(0, 0) =~= Seq::<char>::empty());
    assert(done.push(Seq::<char>::empty()) =~= seq![Seq::<char>::empty()]);
    assert(views_of(ids@) =~= Seq::<Seq<char>>::empty());
    assert(done.map_values(|p: Seq<char>| trimmed(p)) =~= Seq::<Seq<char>>::empty());
    while i < n
        invariant
            n == input@.len(),
            start <= i <= n,
            split_on(input@.subrange(0, i as int), ',') == done.push(
                input@.subrange(start as int, i as int),
            ),
            views_of(ids@) == keep_nonempty(done.map_values(|p: Seq<char>| trimmed(p))),
            only_commas == forall|k: int| 0 <= k < input@.len() ==> input@[k] == ',',
            only_commas ==> ids@.len() == 0 && start == i,
        decreases n - i,
    {
        let c = input.get_char(i);
        let ghost pre = input@.subrange(0, i as int);
        let ghost post = input@.subrange(0, i as int + 1);
        assert(post.drop_last() =~= pre);
        assert(post.last() == c);
        if c == ',' {
            let piece = trim_str(input.substring_char(start, i));
            let ghost cur = input@.subrange(start as int, i as int);
            let ghost ndone = done.push(cur);
            assert(ndone.map_values(|p: Seq<char>| trimmed(p)) =~= done.map_values(
                |p: Seq<char>| trimmed(p),
            ).push(trimmed(cur)));
            assert(ndone.map_values(|p: Seq<char>| trimmed(p)).drop_last() =~= done.map_values(
                |p: Seq<char>| trimmed(p),
            ));
            if piece.unicode_len() > 0 {
                let ghost before = ids@;
                ids.push(piece);
                assert(views_of(ids@) =~= views_of(before).push(piece@));
            }
            proof {
                done = ndone;
            }
            start = i + 1;
            assert(input@.subrange(start as int, i as int + 1) =~= Seq::<char>::empty());
        } else {
            let ghost cur = input@.subrange(start as int, i as int);
            assert(input@.subrange(start as int, i as int + 1) =~= cur.push(c));
            let ghost sp = split_on(pre, ',');
            assert(sp == done.push(cur));
            assert(sp.update(sp.len() - 1, sp.last().push(c)) =~= done.push(cur.push(c)));
        }
        i = i + 1;
    }
    let last = trim_str(input.substring_char(start, n));
    assert(input@.subrange(0, n as int) =~= input@);
    let ghost cur = input@.subrange(start as int, n as int);
    let ghost all = done.push(cur);
    assert(all.map_values(|p: Seq<char>| trimmed(p)) =~= done.map_values(|p: Seq<char>| trimmed(p)).push(
        trimmed(cur),
    ));
    assert(all.map_values(|p: Seq<char>| trimmed(p)).drop_last() =~= done.map_values(
        |p: Seq<char>| trimmed(p),
    ));
    if last.unicode_len() > 0 {
        let ghost before = ids@;
        ids.push(last);
        assert(views_of(ids@) =~= views_of(before).push(last@));
    }
    if ids.len() == 0 {
        Err(SyncError::InvalidChannelList)
    } else {
        Ok(ids)
    }
}

} // verus!
