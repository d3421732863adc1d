//! Making sure that a remote directory exists.
use crate::errors::ApiError;
use crate::path::{child_of, parent_of, split};
use crate::path_laws::{law_parent_of_child, law_parts_of_a_text};
use crate::text::{
    chars_of, find_char, index_of_char, joined3, lemma_index_of_char, text_of, views,
};
use vstd::prelude::*;
use vstd::slice::slice_subrange;

verus! {

broadcast use vstd::string::group_string_axioms;

/// The directories on the way down the segments from `current`, the empty segments left out.
pub open spec fn chain(current: Seq<char>, segments: Seq<Seq<char>>) -> Seq<Seq<char>>
    decreases segments.len(),
{
    if segments.len() == 0 {
        Seq::empty()
    } else if segments[0].len() == 0 {
        chain(current, segments.drop_first())
    } else {
        let next = current + "/"@ + segments[0];
        seq![next] + chain(next, segments.drop_first())
    }
}

/// The directories on the way from the root down to `dir`, the root left out.
pub open spec fn directory_chain(dir: Seq<char>) -> Seq<Seq<char>> {
    chain(Seq::empty(), split(dir, '/'))
}

/// The directories on the way from the root down to `dir`, the root left out.
pub fn directory_steps(dir: &str) -> (steps: Vec<String>)
    ensures
        views(steps@) == directory_chain(dir@),
{
    let chars = chars_of(dir);
    let n: usize = chars.len();
    let mut steps: Vec<String> = Vec::new();
    let mut current = String::new();
    let mut from: usize = 0;
    let mut done = false;
    assert(chars@.skip(0) =~= chars@);
    assert(views(steps@) =~= Seq::empty());
    assert(views(steps@) + directory_chain(dir@) =~= directory_chain(dir@));
    while !done
        invariant
            n == chars@.len(),
            from <= n,
            !done ==> views(steps@) + chain(current@, split(chars@.skip(from as int), '/'))
                == directory_chain(dir@),
            done ==> views(steps@) == directory_chain(dir@),
        decreases (if done { 0int } else { 1 + n - from }),
    {
        let rest = slice_subrange(chars.as_slice(), from, n);
        assert(rest@ =~= chars@.skip(from as int));
        let ghost segments = split(rest@, '/');
        proof {
            lemma_index_of_char(rest@, '/');
        }
        let end: usize = match find_char(rest, '/') {
            Some(i) => i,
            None => {
                done = true;
                rest.len()
            },
        };
        let ghost segment = rest@.take(end as int);
        assert(segments[0] =~= segment);
        assert(done ==> segments.drop_first() =~= Seq::empty());
        assert(!done ==> segments.drop_first() =~= split(rest@.skip(end + 1), '/'));
        let ghost before = steps@;
        if end > 0 {
            assert(rest@.subrange(0, end as int) =~= segment);
            let part = text_of(slice_subrange(rest, 0, end));
            let ghost tail = chain(current@ + "/"@ + segment, segments.drop_first());
            current = joined3(current.as_str(), "/", part.as_str());
            steps.push(current.clone());
            assert(views(steps@) =~= views(before).push(current@));
            assert(views(steps@) + tail =~= views(before) + (seq![current@] + tail));
        }
        if done {
            assert(chain(current@, segments.drop_first()) =~= Seq::empty());
            assert(views(steps@) + Seq::<Seq<char>>::empty() =~= views(steps@));
        } else {
            assert(rest@.skip(end + 1) =~= chars@.skip(from + end + 1));
            from = from + end + 1;
        }
    }
    steps
}

/// What to do next for a remote directory.
pub enum DirectoryAction {
    /// List the directory.
    List(String),
    /// Create the directory.
    Create(String),
    /// Every directory is there.
    Done,
    /// A directory could not be had.
    Fail(ApiError),
}

/// The mathematical form of what to do next for a remote directory.
pub enum WalkAction {
    List(Seq<char>),
    Create(Seq<char>),
    Done,
    Fail(ApiError),
}

impl View for DirectoryAction {
    type V = WalkAction;

    open spec fn view(&self) -> WalkAction {
        match self {
            DirectoryAction::List(path) => WalkAction::List(path@),
            DirectoryAction::Create(path) => WalkAction::Create(path@),
            DirectoryAction::Done => WalkAction::Done,
            DirectoryAction::Fail(error) => WalkAction::Fail(*error),
        }
    }
}

/// What came of the last action for a remote directory.
pub enum DirectoryEvent {
    Start,
    /// The directory could be listed.
    Listed,
    /// The directory could not be listed.
    NotListed,
    /// The directory was created.
    Created,
    /// The directory could not be created.
    NotCreated(ApiError),
}

/// The directories that are left after an event: one that can be listed or was created is done
/// with.
pub open spec fn left_after(left: Seq<Seq<char>>, event: DirectoryEvent) -> Seq<Seq<char>> {
    match event {
        DirectoryEvent::Listed => left.drop_first(),
        DirectoryEvent::Created => left.drop_first(),
        _ => left,
    }
}

/// What to do at an event: a directory that cannot be listed is created, and one that cannot be
/// created ends the walk.
pub open spec fn action_at(left: Seq<Seq<char>>, event: DirectoryEvent) -> WalkAction {
    match event {
        DirectoryEvent::NotListed => WalkAction::Create(left[0]),
        DirectoryEvent::NotCreated(error) => WalkAction::Fail(error),
        _ => {
            let rest = left_after(left, event);
            if rest.len() == 0 {
                WalkAction::Done
            } else {
                WalkAction::List(rest[0])
            }
        },
    }
}

/// How far a remote directory has been made sure of.
pub struct DirectoryWalk {
    steps: Vec<String>,
    at: usize,
}

impl DirectoryWalk {
    /// Whether the walk is within its steps.
    pub closed spec fn wf(self) -> bool {
        self.at <= self.steps@.len()
    }

    /// The directories that are left.
    pub closed spec fn left(self) -> Seq<Seq<char>> {
        views(self.steps@).skip(self.at as int)
    }

    /// The walk down to `dir`.
    pub fn new(dir: &str) -> (walk: DirectoryWalk)
        ensures
            walk.wf(),
            walk.left() == directory_chain(dir@),
    {
        let steps = directory_steps(dir);
        assert(views(steps@).skip(0) =~= views(steps@));
        DirectoryWalk { steps, at: 0 }
    }

    /// The next action: a directory that can be listed or was created is done with, one that
    /// cannot be listed is created, and one that cannot be created ends the walk.
    pub fn next(&mut self, event: DirectoryEvent) -> (action: DirectoryAction)
        requires
            old(self).wf(),
            event is Start || old(self).left().len() > 0,
        ensures
            final(self).wf(),
            final(self).left() == left_after(old(self).left(), event),
            action@ == action_at(old(self).left(), event),
    {
        match event {
            DirectoryEvent::NotListed => {
                return DirectoryAction::Create(self.steps[self.at].clone());
            },
            DirectoryEvent::NotCreated(error) => {
                return DirectoryAction::Fail(error);
            },
            DirectoryEvent::Start => {},
            DirectoryEvent::Listed | DirectoryEvent::Created => {
                let n: usize = self.steps.len();
                assert(self.left().len() == n - self.at);
                assert(self.left().drop_first() =~= views(self.steps@).skip(self.at + 1));
                self.at = self.at + 1;
            },
        }
        if self.at == self.steps.len() {
            DirectoryAction::Done
        } else {
            DirectoryAction::List(self.steps[self.at].clone())
        }
    }
}

/// The directory before the one at `k`, and `start` before the first.
pub open spec fn previous(dirs: Seq<Seq<char>>, start: Seq<char>, k: int) -> Seq<char> {
    if k <= 0 {
        start
    } else {
        dirs[k - 1]
    }
}

proof fn lemma_chain_parents(current: Seq<char>, segments: Seq<Seq<char>>, k: int)
    requires
        current != "/"@,
        forall|i: int| 0 <= i < segments.len() ==> !(#[trigger] segments[i]).contains('/'),
        0 <= k < chain(current, segments).len(),
    ensures
        parent_of(chain(current, segments)[k]) == previous(
            chain(current, segments),
            if current.len() == 0 {
                "/"@
            } else {
                current
            },
            k,
        ),
    decreases segments.len(),
{
    reveal_strlit("/");
    let rest = segments.drop_first();
    assert forall|i: int| 0 <= i < rest.len() implies !(#[trigger] rest[i]).contains('/') by {
        assert(rest[i] == segments[i + 1]);
    }
    if segments[0].len() == 0 {
        lemma_chain_parents(current, rest, k);
    } else {
        let next = current + "/"@ + segments[0];
        let tail = chain(next, rest);
        assert(next.len() > 1);
        assert(!segments[0].contains('/'));
        if k > 0 {
            assert(chain(current, segments)[k] == tail[k - 1]);
            lemma_chain_parents(next, rest, k - 1);
        } else if current.len() == 0 {
            assert(next =~= child_of("/"@, segments[0]));
            law_parent_of_child("/"@, segments[0]);
        } else {
            assert(next =~= child_of(current, segments[0]));
            law_parent_of_child(current, segments[0]);
        }
    }
}

proof fn lemma_split_has_no_separator(s: Seq<char>, c: char)
    ensures
        forall|i: int| 0 <= i < split(s, c).len() ==> !(#[trigger] split(s, c)[i]).contains(c),
    decreases s.len(),
{
    lemma_index_of_char(s, c);
    match index_of_char(s, c) {
        Some(i) => {
            let rest = s.skip(i + 1);
            lemma_split_has_no_separator(rest, c);
            let all = split(s, c);
            assert forall|k: int| 0 <= k < all.len() implies !(#[trigger] all[k]).contains(c) by {
                if k > 0 {
                    assert(all[k] == split(rest, c)[k - 1]);
                }
            }
        },
        None => {},
    }
}

/// Each directory on the way stands in the one before it, and the first in the root, so that
/// every directory is made sure of after the one that holds it.
pub proof fn law_directories_come_after_their_parents(dir: Seq<char>)
    ensures
        forall|k: int|
            0 <= k < directory_chain(dir).len() ==> parent_of(#[trigger] directory_chain(dir)[k])
                == previous(directory_chain(dir), "/"@, k),
{
    reveal_strlit("/");
    lemma_split_has_no_separator(dir, '/');
    assert forall|k: int| 0 <= k < directory_chain(dir).len() implies parent_of(
        #[trigger] directory_chain(dir)[k],
    ) == previous(directory_chain(dir), "/"@, k) by {
        lemma_chain_parents(Seq::empty(), split(dir, '/'), k);
    }
}

proof fn lemma_parts_add_up(s: Seq<char>, c: char, t: Seq<char>)
    ensures
        split(s.push(c) + t, c) == split(s, c) + split(t, c),
    decreases s.len(),
{
    let all = s.push(c) + t;
    lemma_index_of_char(s, c);
    match index_of_char(s, c) {
        Some(i) => {
            let first = s.take(i);
            let rest = s.skip(i + 1);
            assert(!first.contains(c));
            lemma_parts_add_up(rest, c, t);
            law_parts_of_a_text(first, c, rest);
            assert(s =~= first.push(c) + rest);
            law_parts_of_a_text(first, c, rest.push(c) + t);
            assert(all =~= first.push(c) + (rest.push(c) + t));
            assert(split(all, c) =~= split(s, c) + split(t, c));
        },
        None => {
            assert(!s.contains(c));
            law_parts_of_a_text(s, c, t);
        },
    }
}

proof fn lemma_chain_grows(current: Seq<char>, segments: Seq<Seq<char>>, last: Seq<char>)
    ensures
        chain(current, segments.push(last)) == if last.len() == 0 {
            chain(current, segments)
        } else {
            chain(current, segments).push(
                previous(chain(current, segments), current, chain(current, segments).len() as int)
                    + "/"@ + last,
            )
        },
    decreases segments.len(),
{
    let all = segments.push(last);
    if segments.len() == 0 {
        assert(all.drop_first() =~= Seq::empty());
        assert(chain(current + "/"@ + last, Seq::empty()) =~= Seq::empty());
        assert(chain(current, all.drop_first()) =~= Seq::empty());
        assert(all[0] == last);
        assert(chain(current, all) =~= if last.len() == 0 {
            Seq::empty()
        } else {
            Seq::empty().push(current + "/"@ + last)
        });
    } else {
        let rest = segments.drop_first();
        assert(all.drop_first() =~= rest.push(last));
        assert(all[0] == segments[0]);
        if segments[0].len() == 0 {
            lemma_chain_grows(current, rest, last);
        } else {
            let next = current + "/"@ + segments[0];
            lemma_chain_grows(next, rest, last);
            let tail = chain(next, rest);
            assert(chain(current, segments) == seq![next] + tail);
            if last.len() > 0 {
                assert(chain(current, all) =~= seq![next] + tail.push(
                    previous(tail, next, tail.len() as int) + "/"@ + last,
                ));
                assert(previous(tail, next, tail.len() as int) == (seq![next] + tail).last());
                assert((seq![next] + tail).push((seq![next] + tail).last() + "/"@ + last)
                    =~= seq![next] + tail.push((seq![next] + tail).last() + "/"@ + last));
            }
        }
    }
}

/// The way down to a directory is the way to the one that holds it and then the directory itself;
/// a slash at the end adds nothing, and nothing is on the way to the root.
pub proof fn law_way_down_ends_at_the_directory(dir: Seq<char>, name: Seq<char>)
    requires
        name.len() > 0,
        !name.contains('/'),
    ensures
        directory_chain(dir.push('/') + name) == directory_chain(dir).push(
            (if directory_chain(dir).len() == 0 {
                Seq::empty()
            } else {
                directory_chain(dir).last()
            }) + "/"@ + name,
        ),
        directory_chain(dir.push('/')) == directory_chain(dir),
        directory_chain(name) == seq!["/"@ + name],
        directory_chain(Seq::empty()).len() == 0,
{
    let none = Seq::<char>::empty();
    lemma_parts_add_up(dir, '/', name);
    law_parts_of_a_text(name, '/', none);
    assert(split(dir, '/') + seq![name] =~= split(dir, '/').push(name));
    lemma_chain_grows(none, split(dir, '/'), name);
    lemma_parts_add_up(dir, '/', none);
    law_parts_of_a_text(none, '/', none);
    assert(dir.push('/') + none =~= dir.push('/'));
    assert(split(dir, '/') + seq![none] =~= split(dir, '/').push(none));
    lemma_chain_grows(none, split(dir, '/'), none);
    let nothing = Seq::<Seq<char>>::empty();
    lemma_chain_grows(none, nothing, name);
    lemma_chain_grows(none, nothing, none);
    assert(nothing.push(name) =~= seq![name]);
    assert(nothing.push(none) =~= seq![none]);
    assert(chain(none, nothing) =~= nothing);
    assert(none + "/"@ + name =~= "/"@ + name);
    assert(nothing.push("/"@ + name) =~= seq!["/"@ + name]);
}

/// How far a walk has come: the directories that are left, the last action, and the directories
/// that were listed or created, in that order.
pub struct WalkState {
    pub left: Seq<Seq<char>>,
    pub action: WalkAction,
    pub had: Seq<Seq<char>>,
}

/// Whether an event can come of an action.
pub open spec fn comes_of(action: WalkAction, event: DirectoryEvent) -> bool {
    match action {
        WalkAction::List(_) => event is Listed || event is NotListed,
        WalkAction::Create(_) => event is Created || event is NotCreated,
        _ => false,
    }
}

/// How far a walk along `dirs` has come after the start and the events that followed it.
pub open spec fn walked(dirs: Seq<Seq<char>>, events: Seq<DirectoryEvent>) -> WalkState
    decreases events.len(),
{
    if events.len() == 0 {
        WalkState {
            left: left_after(dirs, DirectoryEvent::Start),
            action: action_at(dirs, DirectoryEvent::Start),
            had: Seq::empty(),
        }
    } else {
        let before = walked(dirs, events.drop_last());
        let event = events.last();
        WalkState {
            left: left_after(before.left, event),
            action: action_at(before.left, event),
            had: match (before.action, event) {
                (WalkAction::List(path), DirectoryEvent::Listed) => before.had.push(path),
                (WalkAction::Create(path), DirectoryEvent::Created) => before.had.push(path),
                _ => before.had,
            },
        }
    }
}

/// Whether each event can come of the action before it.
pub open spec fn can_walk(dirs: Seq<Seq<char>>, events: Seq<DirectoryEvent>) -> bool
    decreases events.len(),
{
    events.len() == 0 || (can_walk(dirs, events.drop_last()) && comes_of(
        walked(dirs, events.drop_last()).action,
        events.last(),
    ))
}

proof fn lemma_walk(dirs: Seq<Seq<char>>, events: Seq<DirectoryEvent>)
    requires
        can_walk(dirs, events),
    ensures
        ({
            let state = walked(dirs, events);
            &&& state.had + state.left == dirs
            &&& state.action is Done <==> state.left.len() == 0
            &&& state.action matches WalkAction::List(path) ==> path == state.left[0]
            &&& state.action matches WalkAction::Create(path) ==> path == state.left[0]
            &&& events.len() <= 2 * state.had.len() + match state.action {
                WalkAction::Create(_) => 1int,
                WalkAction::Fail(_) => 2int,
                _ => 0int,
            }
        }),
    decreases events.len(),
{
    let state = walked(dirs, events);
    if events.len() == 0 {
        assert(state.had + state.left =~= dirs);
    } else {
        lemma_walk(dirs, events.drop_last());
        let before = walked(dirs, events.drop_last());
        assert(state.had + state.left =~= before.had + before.left);
    }
}

/// A walk down to a directory says that it is done only when every directory on the way was
/// listed or created, from the root down. Until then what was had and what is left make up the
/// way, so that a failure comes before the way is complete. Each directory takes two requests at
/// most.
pub proof fn law_walk_makes_sure_of_every_directory(dir: Seq<char>, events: Seq<DirectoryEvent>)
    requires
        can_walk(directory_chain(dir), events),
    ensures
        ({
            let state = walked(directory_chain(dir), events);
            &&& state.had + state.left == directory_chain(dir)
            &&& state.action is Done <==> state.had == directory_chain(dir)
            &&& state.action is Fail ==> state.had.len() < directory_chain(dir).len()
            &&& events.len() <= 2 * directory_chain(dir).len()
        }),
{
    lemma_walk(directory_chain(dir), events);
    let state = walked(directory_chain(dir), events);
    assert((state.had + state.left).len() == state.had.len() + state.left.len());
    if state.left.len() == 0 {
        assert(state.had + state.left =~= state.had);
    }
}

/// A directory that cannot be listed is created, one that was listed or created is followed by the
/// next on the way, and one that cannot be created ends the walk with the server's error.
pub proof fn law_steps_of_a_walk(left: Seq<Seq<char>>, error: ApiError, path: String)
    requires
        left.len() > 0,
    ensures
        action_at(left, DirectoryEvent::Start) == WalkAction::List(left[0]),
        action_at(left, DirectoryEvent::NotListed) == WalkAction::Create(left[0]),
        action_at(left, DirectoryEvent::NotCreated(error)) == WalkAction::Fail(error),
        left.len() > 1 ==> action_at(left, DirectoryEvent::Listed) == WalkAction::List(left[1])
            && action_at(left, DirectoryEvent::Created) == WalkAction::List(left[1]),
        left.len() == 1 ==> action_at(left, DirectoryEvent::Listed) is Done && action_at(
            left,
            DirectoryEvent::Created,
        ) is Done,
        DirectoryAction::List(path)@ == WalkAction::List(path@),
        DirectoryAction::Create(path)@ == WalkAction::Create(path@),
        DirectoryAction::Done@ == WalkAction::Done,
        DirectoryAction::Fail(error)@ == WalkAction::Fail(error),
{
}

} // verus!
