//! A flat listing, made from listings of one level each.
//!
//! The directories still to be listed wait in a queue that starts with the
//! directory asked for. Files go to the caller, directories to the queue.

use crate::entry::{entries_view, Entry, EntryView};
use crate::error::Error;
use crate::ops::{OpList, OpListView};
use crate::raw::accessor::Accessor;
use crate::raw::oio::hierarchy_pager::strings_view;
use crate::raw::oio::io::Page;
use crate::raw::rps::RpList;
use crate::raw::vecs::reversed;
use std::collections::VecDeque;
use std::sync::Arc;
use vstd::prelude::*;

verus! {

/// The way back to the backend for the listing of one directory.
pub trait PagerSource<P: Page>: Sized {
    /// What one `open` may do.
    open spec fn open_post(
        &self,
        path: Seq<char>,
        args: OpListView,
        res: Result<(RpList, P), Error>,
    ) -> bool {
        true
    }

    /// Starts a listing of `path`.
    fn open(&self, path: &str, args: OpList) -> (res: Result<(RpList, P), Error>)
        ensures
            self.open_post(path@, args@, res),
    ;
}

/// The way back through `list`.
pub struct ViaList<A> {
    pub acc: Arc<A>,
}

impl<A: Accessor> PagerSource<A::Pager> for ViaList<A> {
    open spec fn open_post(
        &self,
        path: Seq<char>,
        args: OpListView,
        res: Result<(RpList, A::Pager), Error>,
    ) -> bool {
        self.acc.list_post(path, args, res)
    }

    fn open(&self, path: &str, args: OpList) -> (res: Result<(RpList, A::Pager), Error>) {
        self.acc.list(path, args)
    }
}

/// The way back through `blocking_list`.
pub struct ViaBlockingList<A> {
    pub acc: Arc<A>,
}

impl<A: Accessor> PagerSource<A::BlockingPager> for ViaBlockingList<A> {
    open spec fn open_post(
        &self,
        path: Seq<char>,
        args: OpListView,
        res: Result<(RpList, A::BlockingPager), Error>,
    ) -> bool {
        self.acc.blocking_list_post(path, args, res)
    }

    fn open(&self, path: &str, args: OpList) -> (res: Result<(RpList, A::BlockingPager), Error>) {
        self.acc.blocking_list(path, args)
    }
}

/// The entries of a batch that are no directories, in order.
pub open spec fn files_of(batch: Seq<EntryView>) -> Seq<EntryView>
    decreases batch.len(),
{
    if batch.len() == 0 {
        Seq::empty()
    } else if batch.last().is_dir() {
        files_of(batch.drop_last())
    } else {
        files_of(batch.drop_last()).push(batch.last())
    }
}

/// The paths of the directories of a batch, in order.
pub open spec fn dirs_of(batch: Seq<EntryView>) -> Seq<Seq<char>>
    decreases batch.len(),
{
    if batch.len() == 0 {
        Seq::empty()
    } else if batch.last().is_dir() {
        dirs_of(batch.drop_last()).push(batch.last().path)
    } else {
        dirs_of(batch.drop_last())
    }
}

/// Every entry of a batch goes one way: the files and the directories add up
/// to the batch, no directory is among the files, and a batch without
/// directories is handed on as it is.
pub proof fn lemma_split_exact(batch: Seq<EntryView>)
    ensures
        files_of(batch).len() + dirs_of(batch).len() == batch.len(),
        forall|i: int| 0 <= i < files_of(batch).len() ==> !(#[trigger] files_of(batch)[i]).is_dir(),
        (forall|j: int| 0 <= j < batch.len() ==> !(#[trigger] batch[j]).is_dir()) ==> files_of(batch)
            == batch,
    decreases batch.len(),
{
    if batch.len() > 0 {
        let rest = batch.drop_last();
        lemma_split_exact(rest);
        if forall|j: int| 0 <= j < batch.len() ==> !(#[trigger] batch[j]).is_dir() {
            assert forall|j: int| 0 <= j < rest.len() implies !(#[trigger] rest[j]).is_dir() by {
                assert(rest[j] == batch[j]);
            }
            assert(!batch[batch.len() - 1].is_dir());
            assert(files_of(batch) =~= batch);
        }
    }
}

/// Splitting batch by batch gives what splitting at once gives.
pub proof fn lemma_split_concat(a: Seq<EntryView>, b: Seq<EntryView>)
    ensures
        files_of(a + b) == files_of(a) + files_of(b),
        dirs_of(a + b) == dirs_of(a) + dirs_of(b),
    decreases b.len(),
{
    if b.len() == 0 {
        assert(a + b =~= a);
        assert(files_of(a) + files_of(b) =~= files_of(a));
        assert(dirs_of(a) + dirs_of(b) =~= dirs_of(a));
    } else {
        lemma_split_concat(a, b.drop_last());
        assert((a + b).drop_last() =~= a + b.drop_last());
        assert((a + b).last() == b.last());
        if b.last().is_dir() {
            assert((dirs_of(a) + dirs_of(b.drop_last())).push(b.last().path) =~= dirs_of(a)
                + dirs_of(b.drop_last()).push(b.last().path));
        } else {
            assert((files_of(a) + files_of(b.drop_last())).push(b.last()) =~= files_of(a)
                + files_of(b.drop_last()).push(b.last()));
        }
    }
}

/// What a flat listing hands out when the directories of `queue` are listed
/// in order and `levels` says what each directory lists: the files of each
/// level, while its directories join the queue. `None` when more than `fuel`
/// directories are to be listed.
pub open spec fn walk(
    levels: spec_fn(Seq<char>) -> Seq<EntryView>,
    queue: Seq<Seq<char>>,
    fuel: nat,
) -> Option<Seq<EntryView>>
    decreases fuel,
{
    if queue.len() == 0 {
        Some(Seq::empty())
    } else if fuel == 0 {
        None
    } else {
        let level = levels(queue[0]);
        match walk(levels, queue.skip(1) + dirs_of(level), (fuel - 1) as nat) {
            Some(rest) => Some(files_of(level) + rest),
            None => None,
        }
    }
}

/// The weights of the directories of a queue, added up.
pub open spec fn total_weight(weight: spec_fn(Seq<char>) -> nat, queue: Seq<Seq<char>>) -> nat
    decreases queue.len(),
{
    if queue.len() == 0 {
        0
    } else {
        total_weight(weight, queue.drop_last()) + weight(queue.last())
    }
}

/// Whether `weight` bounds the directories below each directory: a directory
/// weighs more than the directories that it lists weigh together. Such a
/// weight exists where the directories form a finite tree, and only there.
pub open spec fn bounds_levels(
    levels: spec_fn(Seq<char>) -> Seq<EntryView>,
    weight: spec_fn(Seq<char>) -> nat,
) -> bool {
    forall|d: Seq<char>| #[trigger] weight(d) > total_weight(weight, dirs_of(levels(d)))
}

proof fn lemma_total_weight_concat(
    weight: spec_fn(Seq<char>) -> nat,
    a: Seq<Seq<char>>,
    b: Seq<Seq<char>>,
)
    ensures
        total_weight(weight, a + b) == total_weight(weight, a) + total_weight(weight, b),
    decreases b.len(),
{
    if b.len() == 0 {
        assert(a + b =~= a);
    } else {
        lemma_total_weight_concat(weight, a, b.drop_last());
        assert((a + b).drop_last() =~= a + b.drop_last());
        assert((a + b).last() == b.last());
    }
}

proof fn lemma_total_weight_first(weight: spec_fn(Seq<char>) -> nat, queue: Seq<Seq<char>>)
    requires
        queue.len() > 0,
    ensures
        total_weight(weight, queue) == weight(queue[0]) + total_weight(weight, queue.skip(1)),
{
    assert(queue =~= seq![queue[0]] + queue.skip(1));
    lemma_total_weight_concat(weight, seq![queue[0]], queue.skip(1));
    assert(seq![queue[0]].drop_last() =~= Seq::<Seq<char>>::empty());
    assert(total_weight(weight, seq![queue[0]]) == weight(queue[0])) by {
        assert(total_weight(weight, seq![queue[0]].drop_last()) == 0);
    }
}

/// Over directories that form a finite tree a flat listing comes to its end:
/// it lists no more directories than the queue weighs, and then nothing is
/// left to list. No directory is among what it hands out.
pub proof fn lemma_walk_ends(
    levels: spec_fn(Seq<char>) -> Seq<EntryView>,
    weight: spec_fn(Seq<char>) -> nat,
    queue: Seq<Seq<char>>,
    fuel: nat,
)
    requires
        bounds_levels(levels, weight),
        fuel >= total_weight(weight, queue),
    ensures
        walk(levels, queue, fuel) is Some,
        forall|i: int|
            0 <= i < walk(levels, queue, fuel)->0.len() ==> !(#[trigger] walk(
                levels,
                queue,
                fuel,
            )->0[i]).is_dir(),
    decreases fuel,
{
    if queue.len() > 0 {
        let level = levels(queue[0]);
        let next = queue.skip(1) + dirs_of(level);
        lemma_total_weight_first(weight, queue);
        lemma_total_weight_concat(weight, queue.skip(1), dirs_of(level));
        assert(weight(queue[0]) > total_weight(weight, dirs_of(level)));
        lemma_walk_ends(levels, weight, next, (fuel - 1) as nat);
        lemma_split_exact(level);
    }
}

/// Parts a batch into its files, which go to the caller, and the paths of its
/// directories, which are to be listed in turn.
pub fn split_batch(batch: Vec<Entry>) -> (r: (Vec<Entry>, Vec<String>))
    ensures
        entries_view(r.0@) == files_of(entries_view(batch@)),
        strings_view(r.1@) == dirs_of(entries_view(batch@)),
{
    let ghost all = entries_view(batch@);
    let mut reversed = reversed(batch);
    let mut files: Vec<Entry> = Vec::new();
    let mut dirs: Vec<String> = Vec::new();
    proof {
        assert(entries_view(reversed@).reverse() =~= all);
        assert(all.subrange(0, all.len() as int) =~= all);
        assert(all.take(0) =~= Seq::<EntryView>::empty());
        assert(entries_view(files@) =~= Seq::<EntryView>::empty());
        assert(strings_view(dirs@) =~= Seq::<Seq<char>>::empty());
    }
    let ghost mut done: int = 0;
    while reversed.len() > 0
        invariant
            0 <= done <= all.len(),
            done + reversed.len() == all.len(),
            entries_view(reversed@).reverse() == all.subrange(done, all.len() as int),
            entries_view(files@) == files_of(all.take(done)),
            strings_view(dirs@) == dirs_of(all.take(done)),
        decreases reversed.len(),
    {
        let ghost r = entries_view(reversed@);
        let ghost f = entries_view(files@);
        let ghost d = strings_view(dirs@);
        let e = reversed.pop().unwrap();
        proof {
            assert(entries_view(reversed@) =~= r.drop_last());
            assert(r.reverse()[0] == e@);
            assert(all[done] == e@);
            assert(r.drop_last().reverse() =~= r.reverse().subrange(1, r.len() as int));
            assert(r.reverse().subrange(1, r.len() as int) =~= all.subrange(
                done + 1,
                all.len() as int,
            ));
            assert(all.take(done + 1).drop_last() =~= all.take(done));
            assert(all.take(done + 1).last() == e@);
        }
        if e.mode().is_dir() {
            dirs.push(e.path().to_owned());
            proof {
                assert(strings_view(dirs@) =~= d.push(e@.path));
            }
        } else {
            files.push(e);
            proof {
                assert(entries_view(files@) =~= f.push(e@));
            }
        }
        proof {
            done = done + 1;
        }
    }
    proof {
        assert(all.take(all.len() as int) =~= all);
    }
    (files, dirs)
}

/// The arguments with which one directory is listed: one level, `limit`
/// entries at a time.
pub open spec fn level_args(limit: usize) -> OpListView {
    OpListView { delimiter: "/"@, limit: Some(limit), start_after: None }
}

/// A pager as contracts see it.
pub struct ToFlatPagerView<S, P> {
    /// The way back to the backend.
    pub source: S,
    /// How many entries the backend is asked for at a time.
    pub limit: usize,
    /// The directories still to be listed, next first.
    pub dirs: Seq<Seq<char>>,
    /// The listing of the directory at hand.
    pub current: Option<P>,
}

/// A pager that lists everything under a directory, over a backend that lists
/// one level at a time.
pub struct ToFlatPager<S, P> {
    source: S,
    limit: usize,
    dirs: VecDeque<String>,
    current: Option<P>,
}

impl<S, P> View for ToFlatPager<S, P> {
    type V = ToFlatPagerView<S, P>;

    closed spec fn view(&self) -> ToFlatPagerView<S, P> {
        ToFlatPagerView {
            source: self.source,
            limit: self.limit,
            dirs: strings_view(self.dirs@),
            current: self.current,
        }
    }
}

/// Lists everything under `path`, asking the backend for `limit` entries at a
/// time. The limit is the size of the backend's pages, not a bound on what
/// comes out.
pub fn to_flat_pager<S, P>(source: S, path: &str, limit: usize) -> (r: ToFlatPager<S, P>)
    ensures
        r@ == (ToFlatPagerView { source, limit, dirs: seq![path@], current: None::<P> }),
{
    let mut dirs: VecDeque<String> = VecDeque::new();
    dirs.push_back(path.to_owned());
    let r = ToFlatPager { source, limit, dirs, current: None };
    proof {
        assert(strings_view(r.dirs@) =~= seq![path@]);
    }
    r
}

impl<S, P> ToFlatPager<S, P> {
    /// Whether nothing is left to list.
    pub fn is_exhausted(&self) -> (r: bool)
        ensures
            r == (self@.current is None && self@.dirs.len() == 0),
    {
        self.current.is_none() && self.dirs.len() == 0
    }

    /// How many entries the backend is asked for at a time.
    pub fn limit(&self) -> (r: usize)
        ensures
            r == self@.limit,
    {
        self.limit
    }

    /// Takes the directory that is to be listed next out of the queue.
    pub fn next_directory(&mut self) -> (r: Option<String>)
        ensures
            match r {
                Some(d) => old(self)@.dirs.len() > 0 && d@ == old(self)@.dirs[0] && final(self)@
                    == (ToFlatPagerView { dirs: old(self)@.dirs.skip(1), ..old(self)@ }),
                None => old(self)@.dirs.len() == 0 && final(self)@ == old(self)@,
            },
    {
        let ghost queue = strings_view(self.dirs@);
        let r = self.dirs.pop_front();
        proof {
            if r is Some {
                assert(queue[0] == r->0@);
                assert(strings_view(self.dirs@) =~= queue.skip(1));
            } else {
                assert(strings_view(self.dirs@) =~= queue);
            }
        }
        r
    }

    /// Puts a directory back at the head of the queue, to be listed next.
    pub fn restore_directory(&mut self, dir: String)
        ensures
            final(self)@ == (ToFlatPagerView {
                dirs: seq![dir@] + old(self)@.dirs,
                ..old(self)@
            }),
    {
        let ghost queue = strings_view(self.dirs@);
        self.dirs.push_front(dir);
        proof {
            assert(strings_view(self.dirs@) =~= seq![dir@] + queue);
        }
    }

    /// Takes one batch of the directory at hand: hands its files out and puts
    /// its directories at the end of the queue, in order.
    pub fn absorb(&mut self, batch: Vec<Entry>) -> (out: Vec<Entry>)
        ensures
            entries_view(out@) == files_of(entries_view(batch@)),
            final(self)@ == (ToFlatPagerView {
                dirs: old(self)@.dirs + dirs_of(entries_view(batch@)),
                ..old(self)@
            }),
    {
        let (files, found) = split_batch(batch);
        let ghost all = strings_view(found@);
        let ghost before = strings_view(self.dirs@);
        let mut reversed = reversed(found);
        proof {
            assert(strings_view(reversed@).reverse() =~= all);
            assert(all.subrange(0, all.len() as int) =~= all);
            assert(before + all.take(0) =~= before);
        }
        let ghost mut done: int = 0;
        while reversed.len() > 0
            invariant
                0 <= done <= all.len(),
                done + reversed.len() == all.len(),
                strings_view(reversed@).reverse() == all.subrange(done, all.len() as int),
                strings_view(self.dirs@) == before + all.take(done),
                self.source == old(self).source,
                self.limit == old(self).limit,
                self.current == old(self).current,
            decreases reversed.len(),
        {
            let ghost r = strings_view(reversed@);
            let ghost q = strings_view(self.dirs@);
            let d = reversed.pop().unwrap();
            proof {
                assert(strings_view(reversed@) =~= r.drop_last());
                assert(r.reverse()[0] == d@);
                assert(all[done] == d@);
                assert(r.drop_last().reverse() =~= r.reverse().subrange(1, r.len() as int));
                assert(r.reverse().subrange(1, r.len() as int) =~= all.subrange(
                    done + 1,
                    all.len() as int,
                ));
            }
            self.dirs.push_back(d);
            proof {
                assert(strings_view(self.dirs@) =~= q.push(d@));
                assert(all.take(done + 1) =~= all.take(done).push(d@));
                assert(q.push(d@) =~= before + all.take(done + 1));
                done = done + 1;
            }
        }
        proof {
            assert(all.take(all.len() as int) =~= all);
        }
        files
    }
}

impl<S: PagerSource<P>, P: Page> Page for ToFlatPager<S, P> {
    /// One call hands out the files of at most one batch of the backend.
    ///
    /// The listing at hand is asked first. When it has ended, or none is at
    /// hand, the next directory leaves the queue and the backend is asked for
    /// its listing, one level at `limit` entries a time; and so on while such
    /// listings end at once. The first batch that arrives is parted: its files
    /// are the result, its directories join the queue. The end is reported
    /// when no listing is at hand and the queue is empty. An error of the
    /// backend is handed on; a directory whose listing could not be started
    /// stays first in the queue.
    open spec fn next_post(pre: Self, post: Self, res: Result<Option<Vec<Entry>>, Error>) -> bool {
        &&& post@.source == pre@.source
        &&& post@.limit == pre@.limit
        &&& exists|k: int| #[trigger] flat_step(pre@, post@, res, k)
    }

    fn next(&mut self) -> (res: Result<Option<Vec<Entry>>, Error>) {
        let ghost pre = self@;
        let ghost mut k: int = 0;
        loop
            invariant
                pre == old(self)@,
                self@.source == pre.source,
                self@.limit == pre.limit,
                0 <= k <= pre.dirs.len(),
                self@.dirs == pre.dirs.skip(k),
                match self@.current {
                    Some(p) => came_from(pre, k, p) && passed_over(pre, k, k - 1),
                    None => passed_over(pre, k, k) && (pre.current is Some ==> ended(
                        pre.current->0,
                    )),
                },
            decreases self.dirs.len() + if self.current is Some { 1int } else { 0int },
        {
            if self.current.is_none() {
                match self.next_directory() {
                    None => {
                        proof {
                            assert(flat_step(
                                pre,
                                self@,
                                Ok::<Option<Vec<Entry>>, Error>(None),
                                k,
                            ));
                        }
                        return Ok(None);
                    },
                    Some(dir) => {
                        proof {
                            assert(pre.dirs[k] == dir@);
                            assert(pre.dirs.skip(k).skip(1) =~= pre.dirs.skip(k + 1));
                        }
                        let args = OpList::new().with_delimiter("/").with_limit(self.limit);
                        match self.source.open(dir.as_str(), args) {
                            Err(e) => {
                                self.restore_directory(dir);
                                proof {
                                    assert(self@.dirs =~= pre.dirs.skip(k));
                                    assert(failed_open(pre, self@, k, e));
                                    assert(flat_step(
                                        pre,
                                        self@,
                                        Err::<Option<Vec<Entry>>, Error>(e),
                                        k,
                                    ));
                                }
                                return Err(e);
                            },
                            Ok((rp, p)) => {
                                self.current = Some(p);
                                proof {
                                    k = k + 1;
                                    assert(pre.source.open_post(
                                        pre.dirs[k - 1],
                                        level_args(pre.limit),
                                        Ok::<(RpList, P), Error>((rp, p)),
                                    ));
                                    assert(came_from(pre, k, p));
                                }
                            },
                        }
                    },
                }
            }
            let mut p = self.current.take().unwrap();
            let ghost asked = p;
            assert(came_from(pre, k, asked));
            let pulled = p.next();
            match pulled {
                Err(e) => {
                    self.current = Some(p);
                    proof {
                        assert(P::next_post(
                            asked,
                            self@.current->0,
                            Err::<Option<Vec<Entry>>, Error>(e),
                        ));
                        assert(failed_pull(pre, self@, k, e));
                        assert(flat_step(pre, self@, Err::<Option<Vec<Entry>>, Error>(e), k));
                    }
                    return Err(e);
                },
                Ok(None) => {
                    proof {
                        assert(P::next_post(
                            asked,
                            p,
                            Ok::<Option<Vec<Entry>>, Error>(None),
                        ));
                        assert(ended(asked));
                        if k == 0 {
                            assert(ended(pre.current->0));
                        } else {
                            assert(was_empty(pre.source, pre.limit, pre.dirs[k - 1]));
                            assert forall|i: int| 0 <= i < k implies was_empty(
                                pre.source,
                                pre.limit,
                                #[trigger] pre.dirs[i],
                            ) by {
                                if i < k - 1 {
                                } else {
                                    assert(i == k - 1);
                                }
                            }
                        }
                    }
                },
                Ok(Some(batch)) => {
                    self.current = Some(p);
                    let out = self.absorb(batch);
                    proof {
                        assert(P::next_post(
                            asked,
                            self@.current->0,
                            Ok::<Option<Vec<Entry>>, Error>(Some(batch)),
                        ));
                        assert(flat_step(
                            pre,
                            self@,
                            Ok::<Option<Vec<Entry>>, Error>(Some(out)),
                            k,
                        ));
                    }
                    return Ok(Some(out));
                },
            }
        }
    }
}

/// Whether the backend started a listing of `dir` that ended at once.
pub open spec fn was_empty<S: PagerSource<P>, P: Page>(source: S, limit: usize, dir: Seq<char>) -> bool {
    exists|rp: RpList, p: P|
        {
            &&& #[trigger] source.open_post(dir, level_args(limit), Ok::<(RpList, P), Error>((rp, p)))
            &&& ended(p)
        }
}

/// Whether the listing `p` ended when it was asked.
pub open spec fn ended<P: Page>(p: P) -> bool {
    exists|q: P| #[trigger] P::next_post(p, q, Ok::<Option<Vec<Entry>>, Error>(None))
}

/// Whether every listing that was given up before the listing at hand came
/// up had ended: the listing that was at hand before, if a directory has left
/// the queue since, and the listings of the first `n` directories of the
/// queue.
pub open spec fn passed_over<S: PagerSource<P>, P: Page>(
    pre: ToFlatPagerView<S, P>,
    k: int,
    n: int,
) -> bool {
    &&& k > 0 && pre.current is Some ==> ended(pre.current->0)
    &&& forall|i: int| 0 <= i < n ==> was_empty(pre.source, pre.limit, #[trigger] pre.dirs[i])
}

/// What one call of `next` does when `k` directories leave the queue in it.
pub open spec fn flat_step<S: PagerSource<P>, P: Page>(
    pre: ToFlatPagerView<S, P>,
    post: ToFlatPagerView<S, P>,
    res: Result<Option<Vec<Entry>>, Error>,
    k: int,
) -> bool {
    &&& 0 <= k <= pre.dirs.len()
    &&& match res {
        Ok(None) => {
            &&& post.current is None
            &&& post.dirs.len() == 0
            &&& k == pre.dirs.len()
            &&& pre.current is Some ==> ended(pre.current->0)
            &&& passed_over(pre, k, k)
        },
        Ok(Some(out)) => exists|p: P, batch: Vec<Entry>|
            {
                &&& passed_over(pre, k, k - 1)
                &&& post.current is Some
                &&& #[trigger] P::next_post(
                    p,
                    post.current->0,
                    Ok::<Option<Vec<Entry>>, Error>(Some(batch)),
                )
                &&& came_from(pre, k, p)
                &&& entries_view(out@) == files_of(entries_view(batch@))
                &&& post.dirs == pre.dirs.skip(k) + dirs_of(entries_view(batch@))
            },
        Err(e) => {
            ||| failed_pull(pre, post, k, e)
            ||| failed_open(pre, post, k, e)
        },
    }
}

/// Whether the listing `p` is the one that is at hand once `k` directories
/// have left the queue: the listing that was at hand before, when none has
/// left; else the listing that the backend started for the last that left.
pub open spec fn came_from<S: PagerSource<P>, P: Page>(
    pre: ToFlatPagerView<S, P>,
    k: int,
    p: P,
) -> bool {
    if k == 0 {
        pre.current == Some(p)
    } else {
        0 < k <= pre.dirs.len() && exists|rp: RpList| #[trigger]
            pre.source.open_post(
                pre.dirs[k - 1],
                level_args(pre.limit),
                Ok::<(RpList, P), Error>((rp, p)),
            )
    }
}

/// The backend failed to continue the listing at hand, after `k` directories
/// had left the queue. The listing stays at hand.
pub open spec fn failed_pull<S: PagerSource<P>, P: Page>(
    pre: ToFlatPagerView<S, P>,
    post: ToFlatPagerView<S, P>,
    k: int,
    e: Error,
) -> bool {
    &&& passed_over(pre, k, k - 1)
    &&& post.dirs == pre.dirs.skip(k)
    &&& post.current is Some
    &&& exists|p: P|
        came_from(pre, k, p) && #[trigger] P::next_post(
            p,
            post.current->0,
            Err::<Option<Vec<Entry>>, Error>(e),
        )
}

/// The backend failed to start the listing of the directory that was first in
/// the queue after `k` had left it. That directory stays first.
pub open spec fn failed_open<S: PagerSource<P>, P: Page>(
    pre: ToFlatPagerView<S, P>,
    post: ToFlatPagerView<S, P>,
    k: int,
    e: Error,
) -> bool {
    &&& k < pre.dirs.len()
    &&& pre.current is Some ==> ended(pre.current->0)
    &&& passed_over(pre, k, k)
    &&& post.dirs == pre.dirs.skip(k)
    &&& post.current is None
    &&& pre.source.open_post(pre.dirs[k], level_args(pre.limit), Err::<(RpList, P), Error>(e))
}

} // verus!
