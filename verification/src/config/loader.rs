//! What the loader of a configuration decides on its own: where each layer comes from, as
//! named in its errors.

use crate::config::source::Source;
use vstd::prelude::*;

verus! {

/// What `std::path::Path::strip_prefix` leaves of `path` once `root` is taken from its
/// front, component by component, or none when `root` does not start it.
pub uninterp spec fn path_stripped(path: Seq<char>, root: Seq<char>) -> Option<Seq<char>>;

/// Calls `std::path::Path::strip_prefix`. Claims that the result is a function of the two
/// paths alone, under the path rules of the platform the crate is built for.
#[verifier::external_body]
fn strip_path_prefix(path: &str, root: &str) -> (r: Option<String>)
    ensures
        match r {
            Some(s) => path_stripped(path@, root@) == Some(s@),
            None => path_stripped(path@, root@) is None,
        },
{
    std::path::Path::new(path).strip_prefix(root).ok().map(|p| p.to_string_lossy().into_owned())
}

/// Where a layer comes from, as its errors name it: the configuration's name for a code
/// snippet, a file's path relative to the project root when it lies under it, a URL as it
/// is.
pub open spec fn location_of(name: Seq<char>, root: Option<Seq<char>>, source: Source) -> Seq<char> {
    match source {
        Source::Code { .. } => name,
        Source::File { path, .. } => match root {
            Some(r) => match path_stripped(path@, r) {
                Some(rel) => rel,
                None => path@,
            },
            None => path@,
        },
        Source::Url { url, .. } => url@,
    }
}

/// Determine the location of a source for use in error messages.
pub fn get_location(name: &str, root: Option<&str>, source: &Source) -> (r: String)
    ensures
        r@ == location_of(
            name@,
            match root {
                Some(p) => Some(p@),
                None => None,
            },
            *source,
        ),
{
    match source {
        Source::Code { .. } => name.to_string(),
        Source::File { path, .. } => match root {
            Some(root) => match strip_path_prefix(path.as_str(), root) {
                Some(rel) => rel,
                None => path.clone(),
            },
            None => path.clone(),
        },
        Source::Url { url, .. } => url.clone(),
    }
}

/// A step of loading: parse a source, or turn the partial configuration parsed `id`-th
/// (counting from zero) into the next layer.
#[derive(Clone, Debug, PartialEq, Eq)]
pub enum LayerTask {
    Parse(Source),
    Layer(usize, Source),
}

/// The parse tasks for `sources`, in order.
pub open spec fn parse_tasks(sources: Seq<Source>) -> Seq<LayerTask> {
    sources.map_values(|s: Source| LayerTask::Parse(s))
}

/// Push parse tasks for `sources` onto a stack of tasks whose top is its last element, so
/// that they come off in the order given, before what was there.
fn push_parse_tasks(tasks: &mut Vec<LayerTask>, sources: Vec<Source>)
    ensures
        final(tasks)@.reverse() == parse_tasks(sources@) + old(tasks)@.reverse(),
{
    let ghost all = sources@;
    let ghost base = tasks@;
    let mut rest = sources;
    while rest.len() > 0
        invariant
            all == rest@ + all.skip(rest@.len() as int),
            rest@.len() <= all.len(),
            tasks@.reverse() == parse_tasks(all.skip(rest@.len() as int)) + base.reverse(),
        decreases rest@.len(),
    {
        let ghost prior = tasks@;
        let ghost n = rest@.len() as int;
        let source = rest.pop().unwrap();
        tasks.push(LayerTask::Parse(source));
        proof {
            assert(all[n - 1] == source);
            assert(all.skip(n - 1) =~= seq![source] + all.skip(n));
            assert(parse_tasks(all.skip(n - 1)) =~= seq![LayerTask::Parse(source)] + parse_tasks(
                all.skip(n),
            ));
            assert(tasks@.reverse() =~= seq![LayerTask::Parse(source)] + prior.reverse());
            assert(all =~= rest@ + all.skip(rest@.len() as int));
        }
    }
    proof {
        assert(all.skip(0) =~= all);
    }
}

/// Decides the order in which sources are parsed and become layers: each source is
/// parsed, then the sources it extends are parsed and become layers, then it becomes a
/// layer itself, before the next source is taken up. So extended configurations are
/// merged before the configuration that extends them, and the given sources are merged in
/// the order they were given.
pub struct LayerPlan {
    /// The tasks still to do, the next one last.
    tasks: Vec<LayerTask>,
    /// How many sources have been parsed.
    parsed: usize,
}

impl LayerPlan {
    /// The tasks still to do, in the order they will be done.
    pub closed spec fn pending(&self) -> Seq<LayerTask> {
        self.tasks@.reverse()
    }

    /// How many sources have been parsed so far.
    pub closed spec fn parsed_count(&self) -> nat {
        self.parsed as nat
    }

    /// Every pending layer is of a configuration already parsed.
    #[verifier::type_invariant]
    closed spec fn layers_parsed(&self) -> bool {
        forall|i: int|
            0 <= i < self.tasks@.len() ==> (#[trigger] self.tasks@[i] matches LayerTask::Layer(
                id,
                _,
            ) ==> id < self.parsed)
    }

    /// How many sources have been parsed so far.
    pub fn parsed_so_far(&self) -> (r: usize)
        ensures
            r == self.parsed_count(),
    {
        self.parsed
    }

    /// A plan to load `sources`, in order.
    pub fn new(sources: Vec<Source>) -> (r: Self)
        ensures
            r.pending() == parse_tasks(sources@),
            r.parsed_count() == 0,
    {
        let mut tasks: Vec<LayerTask> = Vec::new();
        push_parse_tasks(&mut tasks, sources);
        proof {
            assert(Seq::<LayerTask>::empty().reverse() =~= Seq::<LayerTask>::empty());
            assert forall|i: int| 0 <= i < tasks@.len() implies #[trigger] tasks@[i] is Parse by {
                let n = tasks@.len() as int;
                assert(tasks@[i] == tasks@.reverse()[n - 1 - i]);
            }
        }
        LayerPlan { tasks, parsed: 0 }
    }

    /// Take the next task, if any is left.
    pub fn next(&mut self) -> (r: Option<LayerTask>)
        ensures
            old(self).pending().len() == 0 ==> r is None && final(self).pending().len() == 0,
            old(self).pending().len() > 0 ==> r == Some(old(self).pending()[0])
                && final(self).pending() == old(self).pending().drop_first(),
            final(self).parsed_count() == old(self).parsed_count(),
            r matches Some(LayerTask::Layer(id, _)) ==> id < final(self).parsed_count(),
    {
        proof {
            use_type_invariant(&*self);
        }
        let mut tasks: Vec<LayerTask> = Vec::new();
        std::mem::swap(&mut tasks, &mut self.tasks);
        let ghost before = tasks@;
        let r = tasks.pop();
        proof {
            if before.len() > 0 {
                assert(tasks@ =~= before.drop_last());
                assert(tasks@.reverse() =~= before.reverse().drop_first());
                assert(r == Some(before[before.len() - 1]));
            }
            assert forall|i: int| 0 <= i < tasks@.len() implies (#[trigger] tasks@[i] matches LayerTask::Layer(
                k,
                _,
            ) ==> k < self.parsed) by {
                assert(tasks@[i] == before[i]);
            }
        }
        self.tasks = tasks;
        r
    }

    /// Record that `source` was parsed and extends from `extended`: those sources are
    /// parsed next, in order, and become layers before `source` does; what was pending
    /// comes after. Returns the number of the parsed configuration.
    pub fn parsed(&mut self, source: Source, extended: Vec<Source>) -> (id: usize)
        requires
            old(self).parsed_count() < usize::MAX,
        ensures
            id == old(self).parsed_count(),
            final(self).parsed_count() == old(self).parsed_count() + 1,
            final(self).pending() == parse_tasks(extended@) + seq![LayerTask::Layer(id, source)]
                + old(self).pending(),
    {
        proof {
            use_type_invariant(&*self);
        }
        let id = self.parsed;
        let mut tasks: Vec<LayerTask> = Vec::new();
        std::mem::swap(&mut tasks, &mut self.tasks);
        let ghost before = tasks@;
        tasks.push(LayerTask::Layer(id, source));
        proof {
            assert(tasks@.reverse() =~= seq![LayerTask::Layer(id, source)] + before.reverse());
        }
        let ghost ext = parse_tasks(extended@);
        push_parse_tasks(&mut tasks, extended);
        proof {
            let fin = ext + seq![LayerTask::Layer(id, source)] + before.reverse();
            assert(tasks@.reverse() == fin);
            assert forall|i: int| 0 <= i < tasks@.len() implies (#[trigger] tasks@[i] matches LayerTask::Layer(
                k,
                _,
            ) ==> k < id + 1) by {
                let n = tasks@.len() as int;
                let j = n - 1 - i;
                assert(tasks@.reverse()[j] == tasks@[i]);
                if j > ext.len() {
                    let m = before.len() as int;
                    let q = j - ext.len() - 1;
                    assert(fin[j] == before.reverse()[q]);
                    assert(before.reverse()[q] == before[m - 1 - q]);
                } else if j < ext.len() {
                    assert(fin[j] == ext[j]);
                }
            }
        }
        self.parsed = id + 1;
        self.tasks = tasks;
        id
    }
}

/// Extended configurations are merged before the configuration that extends them: once a
/// source is parsed, the sources it extends are taken up first, in order, then it becomes
/// a layer, and only then does what was pending before resume.
pub proof fn lemma_extended_first(
    before: LayerPlan,
    after: LayerPlan,
    source: Source,
    extended: Seq<Source>,
    id: usize,
)
    requires
        after.pending() == parse_tasks(extended) + seq![LayerTask::Layer(id, source)]
            + before.pending(),
    ensures
        forall|k: int|
            0 <= k < extended.len() ==> #[trigger] after.pending()[k] == LayerTask::Parse(
                extended[k],
            ),
        after.pending()[extended.len() as int] == LayerTask::Layer(id, source),
        forall|k: int|
            0 <= k < before.pending().len() ==> #[trigger] after.pending()[extended.len() + 1 + k]
                == before.pending()[k],
        after.pending().len() == extended.len() + 1 + before.pending().len(),
{
    let head = parse_tasks(extended) + seq![LayerTask::Layer(id, source)];
    assert forall|k: int| 0 <= k < extended.len() implies #[trigger] after.pending()[k]
        == LayerTask::Parse(extended[k]) by {
        assert(after.pending()[k] == head[k]);
    }
    assert(after.pending()[extended.len() as int] == head[extended.len() as int]);
}

} // verus!
