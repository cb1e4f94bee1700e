//! Collects the validation errors of a partial configuration.

use crate::config::partial::PartialConfig;
use crate::config::path::{Path, Segment};
use crate::config::validator::{required_message, ValidateError};
use vstd::prelude::*;

verus! {

/// Validates the settings of a partial configuration at a path, collecting the errors.
pub struct ValidateManager<'a, Ctx> {
    context: &'a Ctx,
    finalizing: bool,
    path: Path,
    pub errors: Vec<ValidateError>,
}

impl<'a, Ctx> ValidateManager<'a, Ctx> {
    /// The context handed to every validator.
    pub closed spec fn context(&self) -> &'a Ctx {
        self.context
    }

    /// Whether the configuration is being finalized, which makes required settings mandatory.
    pub closed spec fn finalizing(&self) -> bool {
        self.finalizing
    }

    /// The errors recorded so far.
    pub closed spec fn errors(&self) -> Seq<ValidateError> {
        self.errors@
    }

    /// The path of the configuration being validated.
    pub closed spec fn path(&self) -> Seq<Segment> {
        self.path@
    }

    pub fn new(context: &'a Ctx, finalizing: bool, path: Path) -> (r: Self)
        ensures
            r.context() == context,
            r.finalizing() == finalizing,
            r.path() == path@,
            r.errors().len() == 0,
    {
        Self { context, errors: Vec::new(), finalizing, path }
    }

    /// Run `validator` on the setting `key`, recording its error under the setting's path.
    pub fn check<V, D>(
        &mut self,
        key: &str,
        value: &V,
        data: &D,
        validator: impl Fn(&V, &D, &Ctx, bool) -> Result<(), ValidateError>,
    )
        requires
            validator.requires((value, data, old(self).context(), old(self).finalizing())),
        ensures
            final(self).context() == old(self).context(),
            final(self).finalizing() == old(self).finalizing(),
            final(self).path() == old(self).path(),
            checked(
                validator,
                value,
                data,
                *old(self),
                *final(self),
                old(self).path().push(Segment::Key(key@)),
            ),
    {
        let path = self.path.join_key(key);
        self.check_at(path, value, data, validator);
    }

    /// Run `validator` on the enum variant `variant`, recording its error under the
    /// variant's path.
    pub fn check_variant<V, D>(
        &mut self,
        variant: &str,
        value: &V,
        data: &D,
        validator: impl Fn(&V, &D, &Ctx, bool) -> Result<(), ValidateError>,
    )
        requires
            validator.requires((value, data, old(self).context(), old(self).finalizing())),
        ensures
            final(self).context() == old(self).context(),
            final(self).finalizing() == old(self).finalizing(),
            final(self).path() == old(self).path(),
            checked(
                validator,
                value,
                data,
                *old(self),
                *final(self),
                old(self).path().push(Segment::Variant(variant@)),
            ),
    {
        let path = self.path.join_variant(variant);
        self.check_at(path, value, data, validator);
    }

    fn check_at<V, D>(
        &mut self,
        path: Path,
        value: &V,
        data: &D,
        validator: impl Fn(&V, &D, &Ctx, bool) -> Result<(), ValidateError>,
    )
        requires
            validator.requires((value, data, old(self).context(), old(self).finalizing())),
        ensures
            final(self).context() == old(self).context(),
            final(self).finalizing() == old(self).finalizing(),
            final(self).path() == old(self).path(),
            checked(validator, value, data, *old(self), *final(self), path@),
    {
        let res = validator(value, data, self.context, self.finalizing);
        match res {
            Ok(_) => {},
            Err(error) => {
                let mut error = error;
                let ghost before = self.errors@;
                error.prepend_path(path);
                self.errors.push(error);
                assert(self.errors@.take(before.len() as int) =~= before);
            },
        }
    }

    /// Record that the setting `key` is required, when finalizing.
    pub fn required(&mut self, key: &str)
        ensures
            final(self).context() == old(self).context(),
            final(self).finalizing() == old(self).finalizing(),
            final(self).path() == old(self).path(),
            required_recorded(*old(self), *final(self), old(self).path().push(Segment::Key(key@))),
    {
        let path = self.path.join_key(key);
        self.required_at(path);
    }

    /// Record that the enum variant `variant` is required, when finalizing.
    pub fn required_variant(&mut self, variant: &str)
        ensures
            final(self).context() == old(self).context(),
            final(self).finalizing() == old(self).finalizing(),
            final(self).path() == old(self).path(),
            required_recorded(
                *old(self),
                *final(self),
                old(self).path().push(Segment::Variant(variant@)),
            ),
    {
        let path = self.path.join_variant(variant);
        self.required_at(path);
    }

    fn required_at(&mut self, path: Path)
        ensures
            final(self).context() == old(self).context(),
            final(self).finalizing() == old(self).finalizing(),
            final(self).path() == old(self).path(),
            required_recorded(*old(self), *final(self), path@),
    {
        if self.finalizing {
            let ghost before = self.errors@;
            let mut error = ValidateError::required();
            error.prepend_path(path);
            self.errors.push(error);
            assert(self.errors@.take(before.len() as int) =~= before);
            assert(Seq::<Segment>::empty() + path@ =~= path@);
        }
    }

    /// The path of the item `index` of the enum variant `variant`.
    fn variant_path(&self, variant: &str, index: usize) -> (r: Path)
        ensures
            r@ == self.path().push(Segment::Variant(variant@)).push(Segment::Index(index as int)),
    {
        self.path.join_variant(variant).join_index(index)
    }

    /// Record the outcome of validating a nested configuration: its errors follow those
    /// recorded so far.
    pub fn gather(&mut self, result: Result<(), Vec<ValidateError>>)
        ensures
            final(self).context() == old(self).context(),
            final(self).finalizing() == old(self).finalizing(),
            final(self).path() == old(self).path(),
            gathered(*old(self), *final(self), result),
            kept(*old(self), *final(self)),
    {
        let ghost before = self.errors@;
        match result {
            Ok(()) => {},
            Err(errors) => {
                let mut errors = errors;
                self.errors.append(&mut errors);
            },
        }
        assert(self.errors@.take(before.len() as int) =~= before);
    }

    /// Validate the nested configuration of the setting `key`.
    pub fn nested<S: PartialConfig<Context = Ctx>>(&mut self, key: &str, value: &S)
        ensures
            kept(*old(self), *final(self)),
            nested_validated(*old(self), *final(self), value, old(self).path().push(Segment::Key(key@))),
    {
        let path = self.path.join_key(key);
        self.nested_at(path, value);
    }

    /// Validate the nested configuration of the item `index` of the enum variant `variant`.
    pub fn nested_variant<S: PartialConfig<Context = Ctx>>(
        &mut self,
        variant: &str,
        index: usize,
        value: &S,
    )
        ensures
            kept(*old(self), *final(self)),
            nested_validated(
                *old(self),
                *final(self),
                value,
                old(self).path().push(Segment::Variant(variant@)).push(Segment::Index(index as int)),
            ),
    {
        let path = self.variant_path(variant, index);
        self.nested_at(path, value);
    }

    fn nested_at<S: PartialConfig<Context = Ctx>>(&mut self, path: Path, value: &S)
        ensures
            kept(*old(self), *final(self)),
            nested_validated(*old(self), *final(self), value, path@),
    {
        let ghost p = path;
        let result = value.validate_with_path(self.context, self.finalizing, path);
        assert(call_ensures(S::validate_with_path, (value, self.context, self.finalizing, p), result));
        self.gather(result);
    }

    /// Validate each nested configuration of the list setting `key`, at its index.
    pub fn nested_list<S: PartialConfig<Context = Ctx>>(&mut self, key: &str, list: &Vec<S>)
        ensures
            kept(*old(self), *final(self)),
            list_validated(
                *old(self),
                *final(self),
                list@,
                indexed_paths(old(self).path().push(Segment::Key(key@)), list@.len()),
            ),
    {
        let path = self.path.join_key(key);
        self.nested_list_at(path, list);
    }

    /// Validate each nested configuration of a list in the item `index` of the enum variant
    /// `variant`, at its index.
    pub fn nested_variant_list<S: PartialConfig<Context = Ctx>>(
        &mut self,
        variant: &str,
        index: usize,
        list: &Vec<S>,
    )
        ensures
            kept(*old(self), *final(self)),
            list_validated(
                *old(self),
                *final(self),
                list@,
                indexed_paths(
                    old(self).path().push(Segment::Variant(variant@)).push(Segment::Index(index as int)),
                    list@.len(),
                ),
            ),
    {
        let path = self.variant_path(variant, index);
        self.nested_list_at(path, list);
    }

    fn nested_list_at<S: PartialConfig<Context = Ctx>>(&mut self, path: Path, list: &Vec<S>)
        ensures
            kept(*old(self), *final(self)),
            list_validated(*old(self), *final(self), list@, indexed_paths(path@, list@.len())),
    {
        proof {
            lemma_kept_refl(*self);
        }
        let ghost paths = indexed_paths(path@, list@.len());
        let ghost mut ps: Seq<Path> = Seq::empty();
        let ghost mut results: Seq<Result<(), Vec<ValidateError>>> = Seq::empty();
        let mut i: usize = 0;
        while i < list.len()
            invariant
                i <= list@.len(),
                kept(*old(self), *self),
                paths == indexed_paths(path@, list@.len()),
                validated_prefix(*old(self), *self, list@, paths, ps, results, i as int),
            decreases list@.len() - i,
        {
            let item_path = path.join_index(i);
            let result = list[i].validate_with_path(self.context, self.finalizing, item_path);
            proof {
                assert(call_ensures(
                    S::validate_with_path,
                    (&list@[i as int], self.context(), self.finalizing(), item_path),
                    result,
                ));
            }
            let ghost mid = *self;
            self.gather(result);
            proof {
                lemma_kept_trans(*old(self), mid, *self);
                lemma_validated_step(*old(self), mid, *self, list@, paths, ps, results, i as int, item_path, result);
                ps = ps.push(item_path);
                results = results.push(result);
            }
            i = i + 1;
        }
        proof {
            assert(list_validated(*old(self), *self, list@, paths)) by {
                assert(validated_prefix(*old(self), *self, list@, paths, ps, results, list@.len() as int));
            }
        }
    }

    /// Validate each nested configuration of the map setting `key`, at its key.
    pub fn nested_map<S: PartialConfig<Context = Ctx>>(&mut self, key: &str, map: &Vec<(String, S)>)
        ensures
            kept(*old(self), *final(self)),
            list_validated(
                *old(self),
                *final(self),
                map_values_of(map@),
                keyed_paths(old(self).path().push(Segment::Key(key@)), map@),
            ),
    {
        let path = self.path.join_key(key);
        self.nested_map_at(path, map);
    }

    /// Validate each nested configuration of a map in the item `index` of the enum variant
    /// `variant`, at its key.
    pub fn nested_variant_map<S: PartialConfig<Context = Ctx>>(
        &mut self,
        variant: &str,
        index: usize,
        map: &Vec<(String, S)>,
    )
        ensures
            kept(*old(self), *final(self)),
            list_validated(
                *old(self),
                *final(self),
                map_values_of(map@),
                keyed_paths(
                    old(self).path().push(Segment::Variant(variant@)).push(Segment::Index(index as int)),
                    map@,
                ),
            ),
    {
        let path = self.variant_path(variant, index);
        self.nested_map_at(path, map);
    }

    fn nested_map_at<S: PartialConfig<Context = Ctx>>(&mut self, path: Path, map: &Vec<(String, S)>)
        ensures
            kept(*old(self), *final(self)),
            list_validated(*old(self), *final(self), map_values_of(map@), keyed_paths(path@, map@)),
    {
        proof {
            lemma_kept_refl(*self);
        }
        let ghost items = map_values_of(map@);
        let ghost paths = keyed_paths(path@, map@);
        let ghost mut ps: Seq<Path> = Seq::empty();
        let ghost mut results: Seq<Result<(), Vec<ValidateError>>> = Seq::empty();
        let mut i: usize = 0;
        while i < map.len()
            invariant
                i <= map@.len(),
                kept(*old(self), *self),
                items == map_values_of(map@),
                paths == keyed_paths(path@, map@),
                validated_prefix(*old(self), *self, items, paths, ps, results, i as int),
            decreases map@.len() - i,
        {
            let item_path = path.join_key(map[i].0.as_str());
            let result = map[i].1.validate_with_path(self.context, self.finalizing, item_path);
            proof {
                assert(items[i as int] == map@[i as int].1);
                assert(call_ensures(
                    S::validate_with_path,
                    (&items[i as int], self.context(), self.finalizing(), item_path),
                    result,
                ));
            }
            let ghost mid = *self;
            self.gather(result);
            proof {
                lemma_kept_trans(*old(self), mid, *self);
                lemma_validated_step(*old(self), mid, *self, items, paths, ps, results, i as int, item_path, result);
                ps = ps.push(item_path);
                results = results.push(result);
            }
            i = i + 1;
        }
        proof {
            assert(validated_prefix(*old(self), *self, items, paths, ps, results, map@.len() as int));
        }
    }
}

/// The path of each item of a list nested at `path`: the path followed by its index.
pub open spec fn indexed_paths(path: Seq<Segment>, len: nat) -> Seq<Seq<Segment>> {
    Seq::new(len, |i: int| path.push(Segment::Index(i)))
}

/// The path of each entry of a map nested at `path`: the path followed by its key.
pub open spec fn keyed_paths<S>(path: Seq<Segment>, map: Seq<(String, S)>) -> Seq<Seq<Segment>> {
    map.map_values(|e: (String, S)| path.push(Segment::Key(e.0@)))
}

/// The nested configurations of a map, in order.
pub open spec fn map_values_of<S>(map: Seq<(String, S)>) -> Seq<S> {
    map.map_values(|e: (String, S)| e.1)
}

/// The errors of a sequence of validation outcomes, in order.
pub open spec fn all_errors(results: Seq<Result<(), Vec<ValidateError>>>) -> Seq<ValidateError>
    decreases results.len(),
{
    if results.len() == 0 {
        Seq::empty()
    } else {
        all_errors(results.drop_last()) + match results.last() {
            Ok(_) => Seq::empty(),
            Err(errors) => errors@,
        }
    }
}

/// The first `n` items were validated in order, each at its own path with the manager's
/// context and finalizing flag, giving `results`, whose errors follow those recorded
/// before.
pub open spec fn validated_prefix<Ctx, S: PartialConfig<Context = Ctx>>(
    before: ValidateManager<'_, Ctx>,
    after: ValidateManager<'_, Ctx>,
    items: Seq<S>,
    paths: Seq<Seq<Segment>>,
    ps: Seq<Path>,
    results: Seq<Result<(), Vec<ValidateError>>>,
    n: int,
) -> bool {
    &&& 0 <= n <= items.len()
    &&& paths.len() == items.len()
    &&& ps.len() == n
    &&& results.len() == n
    &&& forall|i: int| 0 <= i < n ==> (#[trigger] ps[i])@ == paths[i]
    &&& forall|i: int|
        0 <= i < n ==> #[trigger] call_ensures(
            S::validate_with_path,
            (&items[i], before.context(), before.finalizing(), ps[i]),
            results[i],
        )
    &&& after.errors() == before.errors() + all_errors(results)
}

/// The errors after each nested configuration of a list or map is validated at its own
/// path: those recorded before, followed by the errors of one outcome of each item's
/// `validate_with_path`, called with the manager's own context and finalizing flag, item
/// after item.
pub open spec fn list_validated<Ctx, S: PartialConfig<Context = Ctx>>(
    before: ValidateManager<'_, Ctx>,
    after: ValidateManager<'_, Ctx>,
    items: Seq<S>,
    paths: Seq<Seq<Segment>>,
) -> bool {
    exists|ps: Seq<Path>, results: Seq<Result<(), Vec<ValidateError>>>|
        #[trigger] validated_prefix(before, after, items, paths, ps, results, items.len() as int)
}

proof fn lemma_validated_step<Ctx, S: PartialConfig<Context = Ctx>>(
    before: ValidateManager<'_, Ctx>,
    mid: ValidateManager<'_, Ctx>,
    after: ValidateManager<'_, Ctx>,
    items: Seq<S>,
    paths: Seq<Seq<Segment>>,
    ps: Seq<Path>,
    results: Seq<Result<(), Vec<ValidateError>>>,
    n: int,
    p: Path,
    res: Result<(), Vec<ValidateError>>,
)
    requires
        validated_prefix(before, mid, items, paths, ps, results, n),
        n < items.len(),
        p@ == paths[n],
        mid.context() == before.context(),
        mid.finalizing() == before.finalizing(),
        call_ensures(S::validate_with_path, (&items[n], mid.context(), mid.finalizing(), p), res),
        gathered(mid, after, res),
    ensures
        validated_prefix(before, after, items, paths, ps.push(p), results.push(res), n + 1),
{
    let rs = results.push(res);
    assert(rs.drop_last() =~= results);
    assert forall|i: int| 0 <= i < n + 1 implies (#[trigger] ps.push(p)[i])@ == paths[i] by {
        if i < n {
            assert(ps.push(p)[i] == ps[i]);
        }
    }
    assert forall|i: int| 0 <= i < n + 1 implies #[trigger] call_ensures(
        S::validate_with_path,
        (&items[i], before.context(), before.finalizing(), ps.push(p)[i]),
        results.push(res)[i],
    ) by {
        if i < n {
            assert(ps.push(p)[i] == ps[i]);
            assert(rs[i] == results[i]);
            assert(call_ensures(
                S::validate_with_path,
                (&items[i], before.context(), before.finalizing(), ps[i]),
                results[i],
            ));
        } else {
            assert(ps.push(p)[i] == p);
            assert(rs[i] == res);
            assert((&items[i], before.context(), before.finalizing(), p) == (
                &items[n],
                mid.context(),
                mid.finalizing(),
                p,
            ));
        }
    }
    assert(rs.last() == res);
    assert(all_errors(rs) == all_errors(results) + match res {
        Ok(_) => Seq::<ValidateError>::empty(),
        Err(errors) => errors@,
    });
    match res {
        Ok(_) => {
            assert(after.errors() =~= before.errors() + all_errors(rs));
        },
        Err(errors) => {
            assert(after.errors() =~= before.errors() + all_errors(rs));
        },
    }
}

/// The errors after a nested configuration is validated at `path`: those recorded before,
/// followed by the errors of one outcome of its `validate_with_path`, called with the
/// manager's own context and finalizing flag at exactly that path.
pub open spec fn nested_validated<Ctx, S: PartialConfig<Context = Ctx>>(
    before: ValidateManager<'_, Ctx>,
    after: ValidateManager<'_, Ctx>,
    value: &S,
    path: Seq<Segment>,
) -> bool {
    exists|p: Path, res: Result<(), Vec<ValidateError>>|
        p@ == path && #[trigger] call_ensures(
            S::validate_with_path,
            (value, before.context(), before.finalizing(), p),
            res,
        ) && gathered(before, after, res)
}

/// The errors after the outcome of a nested validation is recorded: unchanged when it
/// passed, otherwise followed by its errors in order.
pub open spec fn gathered<Ctx>(
    before: ValidateManager<'_, Ctx>,
    after: ValidateManager<'_, Ctx>,
    result: Result<(), Vec<ValidateError>>,
) -> bool {
    match result {
        Ok(_) => after.errors() == before.errors(),
        Err(errors) => after.errors() == before.errors() + errors@,
    }
}

proof fn lemma_kept_refl<Ctx>(m: ValidateManager<'_, Ctx>)
    ensures
        kept(m, m),
{
    assert(m.errors().take(m.errors().len() as int) =~= m.errors());
}

proof fn lemma_kept_trans<Ctx>(
    a: ValidateManager<'_, Ctx>,
    b: ValidateManager<'_, Ctx>,
    c: ValidateManager<'_, Ctx>,
)
    requires
        kept(a, b),
        kept(b, c),
    ensures
        kept(a, c),
{
    assert(c.errors().take(a.errors().len() as int) =~= b.errors().take(a.errors().len() as int));
}

/// The manager keeps its context, mode and path, and the errors recorded before stay
/// first, in order.
pub open spec fn kept<Ctx>(before: ValidateManager<'_, Ctx>, after: ValidateManager<'_, Ctx>) -> bool {
    &&& after.context() == before.context()
    &&& after.finalizing() == before.finalizing()
    &&& after.path() == before.path()
    &&& before.errors().len() <= after.errors().len()
    &&& after.errors().take(before.errors().len() as int) == before.errors()
}

/// The errors after a check at `path`: unchanged when the validator passes, otherwise one
/// more error, whose message is the validator's and whose path is `path` followed by the
/// validator's own path.
pub open spec fn checked<Ctx, V, D, F: Fn(&V, &D, &Ctx, bool) -> Result<(), ValidateError>>(
    validator: F,
    value: &V,
    data: &D,
    before: ValidateManager<'_, Ctx>,
    after: ValidateManager<'_, Ctx>,
    path: Seq<Segment>,
) -> bool {
    exists|res: Result<(), ValidateError>|
        #[trigger] validator.ensures((value, data, before.context(), before.finalizing()), res)
            && match res {
            Ok(_) => after.errors() == before.errors(),
            Err(e) => {
                &&& after.errors().len() == before.errors().len() + 1
                &&& after.errors().take(before.errors().len() as int) == before.errors()
                &&& after.errors().last().message == e.message
                &&& after.errors().last().path@ == path + e.path@
            },
        }
}

/// The errors after a required setting at `path` is recorded: one more error, that the
/// setting is required, when finalizing; otherwise unchanged.
pub open spec fn required_recorded<Ctx>(
    before: ValidateManager<'_, Ctx>,
    after: ValidateManager<'_, Ctx>,
    path: Seq<Segment>,
) -> bool {
    if before.finalizing() {
        &&& after.errors().len() == before.errors().len() + 1
        &&& after.errors().take(before.errors().len() as int) == before.errors()
        &&& after.errors().last().message@ == required_message()
        &&& after.errors().last().path@ == path
    } else {
        after.errors() == before.errors()
    }
}

} // verus!

verus! {

/// Validating a nested configuration keeps the errors recorded so far and adds after them
/// exactly the errors its own validation gives, run at the nested path with the manager's
/// own context and finalizing flag: when finalizing, what the nested configuration reports
/// as required is reported; nothing else is added, dropped or reordered.
pub proof fn lemma_nested_errors_follow<Ctx, S: PartialConfig<Context = Ctx>>(
    before: ValidateManager<'_, Ctx>,
    after: ValidateManager<'_, Ctx>,
    value: &S,
    path: Seq<Segment>,
)
    requires
        nested_validated(before, after, value, path),
    ensures
        exists|p: Path, res: Result<(), Vec<ValidateError>>|
            p@ == path && #[trigger] call_ensures(
                S::validate_with_path,
                (value, before.context(), before.finalizing(), p),
                res,
            ) && after.errors() == before.errors() + match res {
                Ok(_) => Seq::<ValidateError>::empty(),
                Err(errors) => errors@,
            },
{
    let (p, res) = choose|p: Path, res: Result<(), Vec<ValidateError>>|
        p@ == path && #[trigger] call_ensures(
            S::validate_with_path,
            (value, before.context(), before.finalizing(), p),
            res,
        ) && gathered(before, after, res);
    match res {
        Ok(_) => {
            assert(after.errors() =~= before.errors() + Seq::<ValidateError>::empty());
        },
        Err(errors) => {},
    }
}

/// Validating the nested configurations of a list or map keeps the errors recorded so far
/// and adds after them, item after item, exactly the errors each item's own validation
/// gives at its own path, run with the manager's own context and finalizing flag.
pub proof fn lemma_items_errors_follow<Ctx, S: PartialConfig<Context = Ctx>>(
    before: ValidateManager<'_, Ctx>,
    after: ValidateManager<'_, Ctx>,
    items: Seq<S>,
    paths: Seq<Seq<Segment>>,
)
    requires
        list_validated(before, after, items, paths),
    ensures
        exists|ps: Seq<Path>, results: Seq<Result<(), Vec<ValidateError>>>|
            #![trigger all_errors(results), ps.len()]
            ps.len() == items.len() && results.len() == items.len() && (forall|i: int|
                0 <= i < items.len() ==> (#[trigger] ps[i])@ == paths[i] && call_ensures(
                    S::validate_with_path,
                    (&items[i], before.context(), before.finalizing(), ps[i]),
                    results[i],
                )) && after.errors() == before.errors() + all_errors(results),
{
    let (ps, results) = choose|ps: Seq<Path>, results: Seq<Result<(), Vec<ValidateError>>>|
        #[trigger] validated_prefix(before, after, items, paths, ps, results, items.len() as int);
    assert forall|i: int| 0 <= i < items.len() implies (#[trigger] ps[i])@ == paths[i]
        && call_ensures(
        S::validate_with_path,
        (&items[i], before.context(), before.finalizing(), ps[i]),
        results[i],
    ) by {
        assert(call_ensures(
            S::validate_with_path,
            (&items[i], before.context(), before.finalizing(), ps[i]),
            results[i],
        ));
    }
}

/// A required setting is reported only when finalizing: then exactly one error is added
/// after those recorded, saying the setting is required, at the setting's own path;
/// otherwise nothing changes.
pub proof fn lemma_required_only_when_finalizing<Ctx>(
    before: ValidateManager<'_, Ctx>,
    after: ValidateManager<'_, Ctx>,
    path: Seq<Segment>,
)
    requires
        required_recorded(before, after, path),
    ensures
        !before.finalizing() ==> after.errors() == before.errors(),
        before.finalizing() ==> after.errors().len() == before.errors().len() + 1
            && after.errors().subrange(0, before.errors().len() as int) == before.errors()
            && after.errors().last().message@ == "this setting is required"@
            && after.errors().last().path@ == path,
{
    if before.finalizing() {
        assert(after.errors().subrange(0, before.errors().len() as int) == after.errors().take(
            before.errors().len() as int,
        ));
    }
}

/// A failing check adds exactly one error after those recorded: the validator's message,
/// at the checked setting's path followed by the validator's own path; a passing check
/// adds none. The validator is run with the manager's own context and finalizing flag.
pub proof fn lemma_check_records_validator_error<Ctx, V, D, F: Fn(&V, &D, &Ctx, bool) -> Result<(), ValidateError>>(
    validator: F,
    value: &V,
    data: &D,
    before: ValidateManager<'_, Ctx>,
    after: ValidateManager<'_, Ctx>,
    path: Seq<Segment>,
)
    requires
        checked(validator, value, data, before, after, path),
    ensures
        exists|res: Result<(), ValidateError>|
            #[trigger] validator.ensures((value, data, before.context(), before.finalizing()), res)
                && match res {
                Ok(_) => after.errors() == before.errors(),
                Err(e) => after.errors().len() == before.errors().len() + 1
                    && after.errors().subrange(0, before.errors().len() as int) == before.errors()
                    && after.errors().last().message == e.message
                    && after.errors().last().path@ == path + e.path@,
            },
{
    let res = choose|res: Result<(), ValidateError>|
        #[trigger] validator.ensures((value, data, before.context(), before.finalizing()), res)
            && match res {
            Ok(_) => after.errors() == before.errors(),
            Err(e) => {
                &&& after.errors().len() == before.errors().len() + 1
                &&& after.errors().take(before.errors().len() as int) == before.errors()
                &&& after.errors().last().message == e.message
                &&& after.errors().last().path@ == path + e.path@
            },
        };
    assert(after.errors().subrange(0, before.errors().len() as int) == after.errors().take(
        before.errors().len() as int,
    ));
}

} // verus!
