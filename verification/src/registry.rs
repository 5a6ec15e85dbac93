//! What is registered: backends and views are looked up, added, removed and switched.
use vstd::prelude::*;

use crate::columns::ColumnMap;
use crate::config;
use crate::config::{
    Backend, BackendModel, Config, ConfigModel, InputModel, LogicalView, ViewInput, ViewModel,
};
use crate::documents;
use crate::json;
use crate::json::{Json, JsonModel, Members};
use crate::order;
use crate::order::Sortable;
use crate::output::{CommandError, CommandFault};
use crate::text;
use crate::validate;
use crate::views;

verus! {

// ---------------------------------------------------------------------------
// Looking up
// ---------------------------------------------------------------------------

/// The place, from `from` on, of the first backend of a name.
pub open spec fn place_of(backends: Seq<BackendModel>, name: Seq<char>, from: int) -> Option<int>
    decreases backends.len() - from,
{
    if from >= backends.len() {
        None
    } else if backends[from].name == name {
        Some(from)
    } else {
        place_of(backends, name, from + 1)
    }
}

proof fn lemma_place(backends: Seq<BackendModel>, name: Seq<char>, from: int)
    requires
        0 <= from,
    ensures
        match place_of(backends, name, from) {
            Some(i) => from <= i < backends.len() && backends[i].name == name && forall|j: int|
                from <= j < i ==> (#[trigger] backends[j]).name != name,
            None => forall|j: int|
                from <= j < backends.len() ==> (#[trigger] backends[j]).name != name,
        },
    decreases backends.len() - from,
{
    if from < backends.len() && backends[from].name != name {
        lemma_place(backends, name, from + 1);
    }
}

pub open spec fn unknown_backend(name: Seq<char>) -> CommandFault {
    CommandFault {
        code: "backend_not_found"@,
        message: "unknown backend: "@ + name,
        details: JsonModel::Object(seq![("name"@, JsonModel::Text(name))]),
    }
}

fn backend_not_found(name: &str) -> (r: CommandError)
    ensures
        r@ == unknown_backend(name@),
{
    let mut message = "unknown backend: ".to_owned();
    message.append(name);
    let mut details = Members::new();
    details.put("name", json::text(name));
    assert(details@ =~= seq![("name"@, JsonModel::Text(name@))]);
    CommandError::new("backend_not_found", message.as_str(), details.object())
}

/// The place of the first backend of a name.
pub fn find_backend(backends: &Vec<Backend>, name: &str) -> (r: Result<usize, CommandError>)
    ensures
        match r {
            Ok(i) => place_of(order::models(backends@), name@, 0) == Some(i as int) && i
                < backends@.len(),
            Err(error) => place_of(order::models(backends@), name@, 0) is None && error@
                == unknown_backend(name@),
        },
{
    let ghost all = order::models(backends@);
    let mut i: usize = 0;
    while i < backends.len()
        invariant
            i <= backends@.len(),
            all == order::models(backends@),
            place_of(all, name@, 0) == place_of(all, name@, i as int),
        decreases backends@.len() - i,
    {
        assert(all[i as int] == backends@[i as int]@);
        if text::same_text(backends[i].name.as_str(), name) {
            return Ok(i);
        }
        i += 1;
    }
    Err(backend_not_found(name))
}

// ---------------------------------------------------------------------------
// Adding
// ---------------------------------------------------------------------------

pub open spec fn existing_backend(existing: BackendModel, path: Seq<char>) -> CommandFault {
    CommandFault {
        code: "backend_already_exists"@,
        message: "backend already exists: "@ + existing.name,
        details: JsonModel::Object(
            seq![
                ("existing"@, documents::backend_document(existing)),
                ("attempted_path"@, JsonModel::Text(path)),
            ],
        ),
    }
}

/// Accepts a name that no backend has yet. The path that was asked for is only reported: it
/// may be anything.
pub fn check_new_backend(config: &Config, name: &str, attempted_path: &str) -> (r: Result<
    (),
    CommandError,
>)
    ensures
        match place_of(config@.backends, name@, 0) {
            None => r is Ok,
            Some(i) => r matches Err(error) && error@ == existing_backend(
                config@.backends[i],
                attempted_path@,
            ),
        },
{
    match find_backend(&config.backends, name) {
        Err(_) => Ok(()),
        Ok(i) => {
            let existing = &config.backends[i];
            assert(config@.backends[i as int] == existing@);
            proof {
                lemma_place(config@.backends, name@, 0);
            }
            let mut message = "backend already exists: ".to_owned();
            message.append(existing.name.as_str());
            let mut details = Members::new();
            details.put("existing", documents::backend_json(existing));
            details.put("attempted_path", json::text(attempted_path));
            assert(details@ =~= existing_backend(
                existing@,
                attempted_path@,
            ).details->Object_0);
            Err(
                CommandError::new("backend_already_exists", message.as_str(), details.object()),
            )
        },
    }
}

/// The configuration with one more backend.
pub open spec fn with_backend(c: ConfigModel, backend: BackendModel) -> ConfigModel {
    ConfigModel { backends: c.backends.push(backend), ..c }
}

/// Registers a backend under a name that none has yet.
pub fn add_backend(config: &mut Config, backend: Backend) -> (r: Result<(), CommandError>)
    ensures
        match place_of(old(config)@.backends, backend@.name, 0) {
            None => r is Ok && final(config)@ == with_backend(old(config)@, backend@),
            Some(i) => {
                &&& r matches Err(error) && error@ == existing_backend(
                    old(config)@.backends[i],
                    backend@.path,
                )
                &&& final(config)@ == old(config)@
            },
        },
{
    let ghost given = config@;
    if let Err(error) = check_new_backend(config, backend.name.as_str(), backend.path.as_str()) {
        return Err(error);
    }
    proof {
        order::lemma_models_push(config.backends@, backend);
    }
    config.backends.push(backend);
    assert(config@ =~= with_backend(given, backend@));
    Ok(())
}

// ---------------------------------------------------------------------------
// Removing
// ---------------------------------------------------------------------------

/// The backends that do not have a name, in order.
pub open spec fn without_name(backends: Seq<BackendModel>, name: Seq<char>) -> Seq<BackendModel>
    decreases backends.len(),
{
    if backends.len() == 0 {
        backends
    } else {
        let before = without_name(backends.drop_last(), name);
        if backends.last().name == name {
            before
        } else {
            before.push(backends.last())
        }
    }
}

/// The backends that have a name, in order.
pub open spec fn with_name(backends: Seq<BackendModel>, name: Seq<char>) -> Seq<BackendModel>
    decreases backends.len(),
{
    if backends.len() == 0 {
        backends
    } else {
        let before = with_name(backends.drop_last(), name);
        if backends.last().name == name {
            before.push(backends.last())
        } else {
            before
        }
    }
}

/// Removes the registration of a name, and returns what was removed. The views stay, whatever
/// they read.
pub fn remove_backend(config: &mut Config, name: &str) -> (r: Result<Vec<Backend>, CommandError>)
    ensures
        match r {
            Ok(removed) => {
                &&& views::registered(old(config)@.backends, name@)
                &&& order::models(removed@) == with_name(old(config)@.backends, name@)
                &&& final(config)@ == (ConfigModel {
                    backends: without_name(old(config)@.backends, name@),
                    ..old(config)@
                })
            },
            Err(error) => {
                &&& !views::registered(old(config)@.backends, name@)
                &&& error@ == unknown_backend(name@)
                &&& final(config)@ == old(config)@
            },
        },
{
    let ghost given = config@;
    proof {
        lemma_place(given.backends, name@, 0);
    }
    match find_backend(&config.backends, name) {
        Err(error) => {
            return Err(error);
        },
        Ok(i) => {
            assert(given.backends[i as int].name == name@);
            assert(views::registered(given.backends, name@));
        },
    }
    let ghost all = given.backends;
    let mut kept: Vec<Backend> = Vec::new();
    let mut removed: Vec<Backend> = Vec::new();
    let mut i: usize = 0;
    assert(all.take(0) =~= Seq::empty());
    assert(order::models(kept@) =~= without_name(all.take(0), name@));
    assert(order::models(removed@) =~= with_name(all.take(0), name@));
    while i < config.backends.len()
        invariant
            i <= config.backends@.len(),
            config@ == given,
            all == order::models(config.backends@),
            order::models(kept@) == without_name(all.take(i as int), name@),
            order::models(removed@) == with_name(all.take(i as int), name@),
        decreases config.backends@.len() - i,
    {
        let backend = config.backends[i].clone();
        assert(all[i as int] == backend@);
        assert(all.take(i + 1).drop_last() =~= all.take(i as int));
        assert(all.take(i + 1).last() == backend@);
        if text::same_text(backend.name.as_str(), name) {
            proof {
                order::lemma_models_push(removed@, backend);
            }
            removed.push(backend);
        } else {
            proof {
                order::lemma_models_push(kept@, backend);
            }
            kept.push(backend);
        }
        i += 1;
    }
    assert(all.take(all.len() as int) =~= all);
    config.backends = kept;
    assert(config@ =~= (ConfigModel { backends: without_name(given.backends, name@), ..given }));
    Ok(removed)
}

/// The configuration without any backend.
pub open spec fn without_backends(c: ConfigModel) -> ConfigModel {
    ConfigModel { backends: Seq::empty(), ..c }
}

/// Removes every registration, and returns what was removed. The views stay.
pub fn remove_all(config: &mut Config) -> (removed: Vec<Backend>)
    ensures
        order::models(removed@) == old(config)@.backends,
        final(config)@ == without_backends(old(config)@),
{
    let ghost given = config@;
    let mut removed: Vec<Backend> = Vec::new();
    std::mem::swap(&mut removed, &mut config.backends);
    assert(order::models(config.backends@) =~= Seq::<BackendModel>::empty());
    assert(config@ =~= without_backends(given));
    removed
}

// ---------------------------------------------------------------------------
// Switching
// ---------------------------------------------------------------------------

/// The configuration in which the backend at a place is enabled or not.
pub open spec fn switched(c: ConfigModel, i: int, enabled: bool) -> ConfigModel {
    ConfigModel {
        backends: c.backends.update(i, BackendModel { enabled, ..c.backends[i] }),
        ..c
    }
}

/// The place of the backend that has to be tried before it is enabled, or that none has to be
/// where it is disabled. A name that no backend has is an error either way.
pub open spec fn to_try(c: ConfigModel, name: Seq<char>, enabled: bool) -> Result<
    Option<int>,
    CommandFault,
> {
    match place_of(c.backends, name, 0) {
        None => Err(unknown_backend(name)),
        Some(i) => Ok(
            if enabled {
                Some(i)
            } else {
                None
            },
        ),
    }
}

/// The place of the backend that has to be tried before the backend of a name is enabled or
/// disabled.
pub fn enabling(config: &Config, name: &str, enabled: bool) -> (r: Result<
    Option<usize>,
    CommandError,
>)
    ensures
        match r {
            Ok(Some(i)) => i < config.backends@.len() && to_try(config@, name@, enabled) == Ok::<
                Option<int>,
                CommandFault,
            >(Some(i as int)),
            Ok(None) => to_try(config@, name@, enabled) == Ok::<Option<int>, CommandFault>(None),
            Err(error) => to_try(config@, name@, enabled) == Err::<Option<int>, CommandFault>(
                error@,
            ),
        },
{
    match find_backend(&config.backends, name) {
        Err(error) => Err(error),
        Ok(i) => if enabled {
            Ok(Some(i))
        } else {
            Ok(None)
        },
    }
}

/// Enables or disables a backend, and tells whether that changed anything.
pub fn set_enabled(config: &mut Config, name: &str, enabled: bool) -> (r: Result<
    bool,
    CommandError,
>)
    ensures
        match place_of(old(config)@.backends, name@, 0) {
            None => {
                &&& r matches Err(error) && error@ == unknown_backend(name@)
                &&& final(config)@ == old(config)@
            },
            Some(i) => {
                &&& r == Ok::<bool, CommandError>(old(config)@.backends[i].enabled != enabled)
                &&& final(config)@ == switched(old(config)@, i, enabled)
            },
        },
{
    let ghost given = config@;
    match find_backend(&config.backends, name) {
        Err(error) => Err(error),
        Ok(i) => {
            proof {
                lemma_place(given.backends, name@, 0);
            }
            let mut backend = config.backends[i].clone();
            assert(given.backends[i as int] == backend@);
            let changed = backend.enabled != enabled;
            backend.enabled = enabled;
            let ghost before = config.backends@;
            config.backends.set(i, backend);
            assert(config.backends@ == before.update(i as int, backend));
            assert(backend@ == (BackendModel { enabled, ..given.backends[i as int] }));
            assert(order::models(config.backends@) =~= given.backends.update(i as int, backend@));
            assert(config@ =~= switched(given, i as int, enabled));
            Ok(changed)
        },
    }
}

// ---------------------------------------------------------------------------
// Laws of the registry
// ---------------------------------------------------------------------------

proof fn lemma_without_absent(backends: Seq<BackendModel>, name: Seq<char>)
    requires
        !views::registered(backends, name),
    ensures
        without_name(backends, name) == backends,
    decreases backends.len(),
{
    if backends.len() > 0 {
        let front = backends.drop_last();
        assert forall|i: int| 0 <= i < front.len() implies (#[trigger] front[i]).name != name by {
            assert(front[i] == backends[i]);
        }
        lemma_without_absent(front, name);
        assert(backends[backends.len() - 1].name != name);
        assert(without_name(backends, name) =~= backends);
    }
}

proof fn lemma_without_concat(a: Seq<BackendModel>, b: Seq<BackendModel>, name: Seq<char>)
    ensures
        without_name(a + b, name) == without_name(a, name) + without_name(b, name),
    decreases b.len(),
{
    if b.len() == 0 {
        assert(a + b =~= a);
        assert(without_name(a, name) + without_name(b, name) =~= without_name(a, name));
    } else {
        lemma_without_concat(a, b.drop_last(), name);
        assert((a + b).drop_last() =~= a + b.drop_last());
        assert(without_name(a + b, name) =~= without_name(a, name) + without_name(b, name));
    }
}

proof fn lemma_without_one(backend: BackendModel, name: Seq<char>)
    ensures
        without_name(seq![backend], name) == if backend.name == name {
            Seq::<BackendModel>::empty()
        } else {
            seq![backend]
        },
{
    reveal_with_fuel(without_name, 2);
    assert(seq![backend].drop_last() =~= Seq::<BackendModel>::empty());
    assert(without_name(seq![backend], name) =~= if backend.name == name {
        Seq::<BackendModel>::empty()
    } else {
        seq![backend]
    });
}

/// Putting an item of the name in its place and removing the name is removing the name.
proof fn lemma_without_placed(item: BackendModel, s: Seq<BackendModel>, name: Seq<char>)
    requires
        item.name == name,
    ensures
        without_name(order::placed(item, s, Backend::key()), name) == without_name(s, name),
    decreases s.len(),
{
    let key = Backend::key();
    if s.len() > 0 && order::precedes(key(s[0]), key(item)) {
        let rest = s.drop_first();
        lemma_without_placed(item, rest, name);
        lemma_without_concat(seq![s[0]], order::placed(item, rest, key), name);
        lemma_without_concat(seq![s[0]], rest, name);
        assert(seq![s[0]] + rest =~= s);
    } else {
        lemma_without_concat(seq![item], s, name);
        lemma_without_one(item, name);
        assert(Seq::<BackendModel>::empty() + without_name(s, name) =~= without_name(s, name));
    }
}

/// Where an item that does not have a name goes does not depend on those that have it, among
/// backends that are listed by name.
proof fn lemma_placed_without(item: BackendModel, s: Seq<BackendModel>, name: Seq<char>)
    requires
        item.name != name,
        order::sorted_by(s, Backend::key()),
    ensures
        without_name(order::placed(item, s, Backend::key()), name) == order::placed(
            item,
            without_name(s, name),
            Backend::key(),
        ),
    decreases s.len(),
{
    let key = Backend::key();
    if s.len() == 0 {
        assert(without_name(s, name) =~= s);
        assert(order::placed(item, s, key) =~= seq![item]);
        lemma_without_one(item, name);
    } else {
        let rest = s.drop_first();
        assert(seq![s[0]] + rest =~= s);
        assert forall|i: int, j: int| #![trigger rest[i], rest[j]]
            0 <= i < j < rest.len() implies !order::precedes(key(rest[j]), key(rest[i])) by {
            assert(rest[i] == s[i + 1] && rest[j] == s[j + 1]);
        }
        lemma_without_concat(seq![s[0]], rest, name);
        lemma_without_one(s[0], name);
        if order::precedes(key(s[0]), key(item)) {
            lemma_placed_without(item, rest, name);
            lemma_without_concat(seq![s[0]], order::placed(item, rest, key), name);
            let kept = without_name(s, name);
            if s[0].name == name {
                assert(kept =~= without_name(rest, name));
                assert(without_name(order::placed(item, s, key), name) =~= order::placed(
                    item,
                    kept,
                    key,
                ));
            } else {
                assert(kept =~= seq![s[0]] + without_name(rest, name));
                assert(kept.drop_first() =~= without_name(rest, name));
            }
        } else {
            lemma_without_concat(seq![item], s, name);
            lemma_without_one(item, name);
            let kept = without_name(s, name);
            lemma_without_is_from(s, name);
            if kept.len() > 0 {
                let i = choose|i: int| 0 <= i < s.len() && s[i] == kept[0];
                if i > 0 {
                    assert(!order::precedes(key(s[i]), key(s[0])));
                    order::lemma_not_after_transitive(key(item), key(s[0]), key(s[i]));
                }
                assert(!order::precedes(key(kept[0]), key(item)));
            }
        }
    }
}

proof fn lemma_without_is_from(s: Seq<BackendModel>, name: Seq<char>)
    ensures
        forall|k: int|
            0 <= k < without_name(s, name).len() ==> s.contains(
                #[trigger] without_name(s, name)[k],
            ) && without_name(s, name)[k].name != name,
    decreases s.len(),
{
    if s.len() > 0 {
        let front = s.drop_last();
        lemma_without_is_from(front, name);
        let kept = without_name(s, name);
        assert forall|k: int| 0 <= k < kept.len() implies s.contains(#[trigger] kept[k])
            && kept[k].name != name by {
            if k < without_name(front, name).len() {
                assert(kept[k] == without_name(front, name)[k]);
                let i = choose|i: int| 0 <= i < front.len() && front[i] == kept[k];
                assert(s[i] == kept[k]);
            } else {
                assert(kept[k] == s[s.len() - 1]);
            }
        }
    }
}

proof fn lemma_without_sorted(s: Seq<BackendModel>, name: Seq<char>)
    ensures
        without_name(order::stable_sort(s, Backend::key()), name) == order::stable_sort(
            without_name(s, name),
            Backend::key(),
        ),
    decreases s.len(),
{
    let key = Backend::key();
    if s.len() > 0 {
        let rest = s.drop_first();
        let sorted = order::stable_sort(rest, key);
        lemma_without_sorted(rest, name);
        assert(seq![s[0]] + rest =~= s);
        lemma_without_concat(seq![s[0]], rest, name);
        lemma_without_one(s[0], name);
        if s[0].name == name {
            lemma_without_placed(s[0], sorted, name);
            assert(without_name(s, name) =~= without_name(rest, name));
        } else {
            order::stable_sort_sorts(rest, key);
            lemma_placed_without(s[0], sorted, name);
            let kept = without_name(s, name);
            assert(kept =~= seq![s[0]] + without_name(rest, name));
            assert(kept.drop_first() =~= without_name(rest, name));
        }
    } else {
        assert(without_name(s, name) =~= s);
    }
}

/// Adding a backend and removing it again gives the configuration back, also where the
/// backends were listed by name in between, as they are whenever they are saved.
pub proof fn removing_undoes_adding(c: ConfigModel, backend: BackendModel)
    requires
        !views::registered(c.backends, backend.name),
        validate::arranged(c) == c,
    ensures
        without_name(with_backend(c, backend).backends, backend.name) == c.backends,
        without_name(validate::arranged(with_backend(c, backend)).backends, backend.name)
            == c.backends,
{
    let added = with_backend(c, backend).backends;
    assert(added.drop_last() =~= c.backends);
    lemma_without_absent(c.backends, backend.name);
    lemma_without_sorted(added, backend.name);
}

/// Removing every backend leaves none, keeps the views, and changes nothing the second time.
pub proof fn removing_all_is_idempotent(c: ConfigModel)
    ensures
        without_backends(c).backends.len() == 0,
        without_backends(c).views == c.views,
        without_backends(without_backends(c)) == without_backends(c),
        validate::valid_config(c) ==> validate::valid_config(without_backends(c)),
{
    let same = |a: BackendModel, b: BackendModel| validate::same_backend_name(a, b);
    assert(!order::clash(without_backends(c).backends, same));
}

/// Disabling what was enabled and enabling it again gives the configuration back, and so does
/// the reverse. Neither makes a valid configuration invalid.
pub proof fn switching_back_undoes_switching(c: ConfigModel, i: int, enabled: bool)
    requires
        0 <= i < c.backends.len(),
    ensures
        switched(switched(c, i, enabled), i, c.backends[i].enabled) == c,
        validate::valid_config(c) ==> validate::valid_config(switched(c, i, enabled)),
{
    let s = switched(c, i, enabled);
    assert(switched(s, i, c.backends[i].enabled).backends =~= c.backends);
    if validate::valid_config(c) {
        let same = |a: BackendModel, b: BackendModel| validate::same_backend_name(a, b);
        assert forall|k: int| 0 <= k < s.backends.len() implies validate::valid_backend(
            #[trigger] s.backends[k],
        ) by {
            assert(validate::valid_backend(c.backends[k]));
        }
        if order::clash(s.backends, same) {
            let (j, k) = choose|j: int, k: int|
                0 <= j < k < s.backends.len() && #[trigger] same(s.backends[j], s.backends[k]);
            assert(same(c.backends[j], c.backends[k]));
        }
    }
}

/// The place of a name does not depend on which backends are enabled.
proof fn lemma_place_after_switching(c: ConfigModel, i: int, enabled: bool, name: Seq<char>, from: int)
    requires
        0 <= i < c.backends.len(),
        0 <= from,
    ensures
        place_of(switched(c, i, enabled).backends, name, from) == place_of(
            c.backends,
            name,
            from,
        ),
    decreases c.backends.len() - from,
{
    if from < c.backends.len() {
        assert(switched(c, i, enabled).backends[from].name == c.backends[from].name);
        lemma_place_after_switching(c, i, enabled, name, from + 1);
    }
}

/// A backend that was enabled or disabled is found under its name where it was, and is as it
/// was but for that. A configuration that is listed by name stays so.
pub proof fn switching_keeps_the_place(c: ConfigModel, name: Seq<char>, enabled: bool)
    requires
        place_of(c.backends, name, 0) is Some,
    ensures
        ({
            let i = place_of(c.backends, name, 0)->0;
            let s = switched(c, i, enabled);
            &&& 0 <= i < c.backends.len()
            &&& c.backends[i].name == name
            &&& place_of(s.backends, name, 0) == Some(i)
            &&& s.backends[i].enabled == enabled
            &&& c.backends[i].enabled == enabled ==> s == c
            &&& validate::arranged(c) == c ==> validate::arranged(s) == s
        }),
{
    lemma_place(c.backends, name, 0);
    let i = place_of(c.backends, name, 0)->0;
    let s = switched(c, i, enabled);
    lemma_place_after_switching(c, i, enabled, name, 0);
    if c.backends[i].enabled == enabled {
        assert(s.backends =~= c.backends);
    }
    if validate::arranged(c) == c {
        let key = Backend::key();
        order::stable_sort_sorts(c.backends, key);
        assert(order::sorted_by(c.backends, key));
        assert forall|j: int, k: int|
            #![trigger s.backends[j], s.backends[k]]
            0 <= j < k < s.backends.len() implies !order::precedes(
            key(s.backends[k]),
            key(s.backends[j]),
        ) by {
            assert(s.backends[j].name == c.backends[j].name);
            assert(s.backends[k].name == c.backends[k].name);
            assert(!order::precedes(key(c.backends[k]), key(c.backends[j])));
        }
        order::sorting_what_is_sorted_changes_nothing(s.backends, key);
    }
}

/// A valid configuration stays valid where a backend is removed.
pub proof fn removing_keeps_validity(c: ConfigModel, name: Seq<char>)
    requires
        validate::valid_config(c),
    ensures
        validate::valid_config(
            (ConfigModel { backends: without_name(c.backends, name), ..c }),
        ),
        !views::registered(without_name(c.backends, name), name),
{
    lemma_without_is_from(c.backends, name);
    lemma_without_keeps_distinct(c.backends, name);
    let kept = without_name(c.backends, name);
    assert forall|k: int| 0 <= k < kept.len() implies validate::valid_backend(
        #[trigger] kept[k],
    ) by {
        let i = choose|i: int| 0 <= i < c.backends.len() && c.backends[i] == kept[k];
        assert(validate::valid_backend(c.backends[i]));
    }
}

proof fn lemma_without_keeps_distinct(s: Seq<BackendModel>, name: Seq<char>)
    requires
        !order::clash(s, |a: BackendModel, b: BackendModel| validate::same_backend_name(a, b)),
    ensures
        !order::clash(
            without_name(s, name),
            |a: BackendModel, b: BackendModel| validate::same_backend_name(a, b),
        ),
    decreases s.len(),
{
    let same = |a: BackendModel, b: BackendModel| validate::same_backend_name(a, b);
    if s.len() > 0 {
        let front = s.drop_last();
        if order::clash(front, same) {
            let (j, k) = choose|j: int, k: int|
                0 <= j < k < front.len() && #[trigger] same(front[j], front[k]);
            assert(same(s[j], s[k]));
        }
        lemma_without_keeps_distinct(front, name);
        lemma_without_is_from(front, name);
        let kept = without_name(s, name);
        let before = without_name(front, name);
        if order::clash(kept, same) {
            let (j, k) = choose|j: int, k: int|
                0 <= j < k < kept.len() && #[trigger] same(kept[j], kept[k]);
            if k < before.len() {
                assert(same(before[j], before[k]));
            } else {
                assert(kept[j] == before[j]);
                let i = choose|i: int| 0 <= i < front.len() && front[i] == before[j];
                assert(same(s[i], s[s.len() - 1]));
            }
        }
    }
}

/// A valid configuration stays valid where a valid backend is added under a new name, and in
/// no other case of adding one.
pub proof fn adding_keeps_validity(c: ConfigModel, backend: BackendModel)
    requires
        validate::valid_config(c),
    ensures
        validate::valid_config(with_backend(c, backend)) <==> validate::valid_backend(backend)
            && !views::registered(c.backends, backend.name),
{
    let same = |a: BackendModel, b: BackendModel| validate::same_backend_name(a, b);
    let added = with_backend(c, backend).backends;
    let n = c.backends.len() as int;
    assert(added[n] == backend);
    if validate::valid_config(with_backend(c, backend)) {
        assert(validate::valid_backend(added[n]));
        if views::registered(c.backends, backend.name) {
            let i = choose|i: int|
                0 <= i < c.backends.len() && (#[trigger] c.backends[i]).name == backend.name;
            assert(same(added[i], added[n]));
        }
    }
    if validate::valid_backend(backend) && !views::registered(c.backends, backend.name) {
        assert forall|k: int| 0 <= k < added.len() implies validate::valid_backend(
            #[trigger] added[k],
        ) by {
            if k < n {
                assert(validate::valid_backend(c.backends[k]));
            }
        }
        if order::clash(added, same) {
            let (j, k) = choose|j: int, k: int|
                0 <= j < k < added.len() && #[trigger] same(added[j], added[k]);
            if k < n {
                assert(same(c.backends[j], c.backends[k]));
            } else {
                assert(c.backends[j].name == backend.name);
            }
        }
    }
}

// ---------------------------------------------------------------------------
// Views
// ---------------------------------------------------------------------------

/// The place, from `from` on, of the first view of a schema and a name.
pub open spec fn view_place(
    list: Seq<ViewModel>,
    schema: Seq<char>,
    name: Seq<char>,
    from: int,
) -> Option<int>
    decreases list.len() - from,
{
    if from >= list.len() {
        None
    } else if list[from].schema == schema && list[from].name == name {
        Some(from)
    } else {
        view_place(list, schema, name, from + 1)
    }
}

/// The place of the first view of a schema and a name.
pub fn find_view(list: &Vec<LogicalView>, schema: &str, name: &str) -> (r: Option<usize>)
    ensures
        match r {
            Some(i) => view_place(order::models(list@), schema@, name@, 0) == Some(i as int) && i
                < list@.len(),
            None => view_place(order::models(list@), schema@, name@, 0) is None,
        },
{
    let ghost all = order::models(list@);
    let mut i: usize = 0;
    while i < list.len()
        invariant
            i <= list@.len(),
            all == order::models(list@),
            view_place(all, schema@, name@, 0) == view_place(all, schema@, name@, i as int),
        decreases list@.len() - i,
    {
        assert(all[i as int] == list@[i as int]@);
        if text::same_text(list[i].schema.as_str(), schema) && text::same_text(
            list[i].name.as_str(),
            name,
        ) {
            return Some(i);
        }
        i += 1;
    }
    None
}

pub open spec fn unknown_view(schema: Seq<char>, name: Seq<char>) -> CommandFault {
    let qualified = schema + "."@ + name;
    CommandFault {
        code: "view_not_found"@,
        message: "unknown view: "@ + qualified,
        details: JsonModel::Object(seq![("name"@, JsonModel::Text(qualified))]),
    }
}

/// The view of a schema and a name.
pub fn get_view<'a>(config: &'a Config, schema: &str, name: &str) -> (r: Result<
    &'a LogicalView,
    CommandError,
>)
    ensures
        match view_place(config@.views, schema@, name@, 0) {
            Some(i) => r matches Ok(view) && view@ == config@.views[i],
            None => r matches Err(error) && error@ == unknown_view(schema@, name@),
        },
{
    match find_view(&config.views, schema, name) {
        Some(i) => {
            assert(config@.views[i as int] == config.views@[i as int]@);
            Ok(&config.views[i])
        },
        None => {
            let mut qualified = schema.to_owned();
            qualified.append(".");
            qualified.append(name);
            let mut message = "unknown view: ".to_owned();
            message.append(qualified.as_str());
            let mut details = Members::new();
            details.put("name", json::text(qualified.as_str()));
            assert(details@ =~= seq![("name"@, JsonModel::Text(qualified@))]);
            Err(CommandError::new("view_not_found", message.as_str(), details.object()))
        },
    }
}

pub open spec fn existing_view(view: ViewModel) -> CommandFault {
    CommandFault {
        code: "view_already_exists"@,
        message: "view already exists: "@ + config::qualified(view),
        details: JsonModel::Object(
            seq![("name"@, JsonModel::Text(config::qualified(view)))],
        ),
    }
}

/// Defines a view under a name that none has yet in its schema.
pub fn add_view(config: &mut Config, view: LogicalView) -> (r: Result<(), CommandError>)
    ensures
        match view_place(old(config)@.views, view@.schema, view@.name, 0) {
            None => r is Ok && final(config)@ == (ConfigModel {
                views: old(config)@.views.push(view@),
                ..old(config)@
            }),
            Some(_) => {
                &&& r matches Err(error) && error@ == existing_view(view@)
                &&& final(config)@ == old(config)@
            },
        },
{
    let ghost given = config@;
    if find_view(&config.views, view.schema.as_str(), view.name.as_str()).is_some() {
        let qualified = view.qualified_name();
        let mut message = "view already exists: ".to_owned();
        message.append(qualified.as_str());
        let mut details = Members::new();
        details.put("name", json::text(qualified.as_str()));
        assert(details@ =~= seq![("name"@, JsonModel::Text(qualified@))]);
        return Err(
            CommandError::new("view_already_exists", message.as_str(), details.object()),
        );
    }
    proof {
        order::lemma_models_push(config.views@, view);
    }
    config.views.push(view);
    assert(config@ =~= (ConfigModel { views: given.views.push(view@), ..given }));
    Ok(())
}

/// The column that tells which backend a row is from, unless a view asks for another or for
/// none.
pub fn default_source_column() -> (r: String)
    ensures
        r@ == "_source_backend"@,
{
    "_source_backend".to_owned()
}

/// What stands on the two sides of the first equals sign of a text.
pub open spec fn sides(value: Seq<char>, from: int) -> Option<(Seq<char>, Seq<char>)>
    decreases value.len() - from,
{
    if from >= value.len() {
        None
    } else if value[from] == '=' {
        Some((value.take(from), value.skip(from + 1)))
    } else {
        sides(value, from + 1)
    }
}

/// Reads an input that is written as the name of a backend, an equals sign and a relation.
pub fn parse_input(value: &str) -> (r: Result<ViewInput, String>)
    ensures
        match sides(value@, 0) {
            Some((backend, relation)) => r matches Ok(input) && input@ == (InputModel {
                backend,
                relation,
                columns: Seq::empty(),
            }),
            None => r matches Err(error) && error@ == "input must be BACKEND=RELATION"@,
        },
{
    let chars = text::chars_of(value);
    let mut i: usize = 0;
    while i < chars.len()
        invariant
            i <= chars@.len(),
            chars@ == value@,
            sides(value@, 0) == sides(value@, i as int),
        decreases chars@.len() - i,
    {
        if chars[i] == '=' {
            let backend = text::string_of(&chars, 0, i);
            let relation = text::string_of(&chars, i + 1, chars.len());
            assert(backend@ =~= value@.take(i as int));
            assert(relation@ =~= value@.skip(i + 1));
            return Ok(ViewInput { backend, relation, columns: ColumnMap::new() });
        }
        i += 1;
    }
    Err("input must be BACKEND=RELATION".to_owned())
}

proof fn lemma_sides(backend: Seq<char>, relation: Seq<char>, from: int)
    requires
        !backend.contains('='),
        0 <= from <= backend.len(),
    ensures
        sides(backend + seq!['='] + relation, from) == Some((backend, relation)),
    decreases backend.len() - from,
{
    let value = backend + seq!['='] + relation;
    if from < backend.len() {
        assert(backend.contains(backend[from]));
        assert(value[from] == backend[from]);
        lemma_sides(backend, relation, from + 1);
    } else {
        assert(value[from] == '=');
        assert(value.take(from) =~= backend);
        assert(value.skip(from + 1) =~= relation);
    }
}

/// An input is read as the backend and the relation that it was written with.
pub proof fn inputs_are_read_back(backend: Seq<char>, relation: Seq<char>)
    requires
        validate::valid_name(backend),
    ensures
        sides(backend + seq!['='] + relation, 0) == Some((backend, relation)),
{
    assert forall|i: int| 0 <= i < backend.len() implies backend[i] != '=' by {
        assert(validate::name_char(backend[i], i));
    }
    lemma_sides(backend, relation, 0);
}

// ---------------------------------------------------------------------------
// Laws of looking up
// ---------------------------------------------------------------------------

/// A name stands for the first backend that has it. A name that none has is an error that names
/// it.
pub proof fn backends_are_found_by_name(
    backends: &Vec<Backend>,
    name: &str,
    r: Result<usize, CommandError>,
)
    requires
        call_ensures(find_backend, (backends, name), r),
    ensures
        r matches Ok(i) ==> i < backends@.len() && backends@[i as int].name@ == name@ && (forall|
            j: int,
        |
            0 <= j < i ==> (#[trigger] backends@[j]).name@ != name@),
        r is Err <==> forall|j: int|
            0 <= j < backends@.len() ==> (#[trigger] backends@[j]).name@ != name@,
        r matches Err(error) ==> error.code@ == "backend_not_found"@ && (": "@
            + name@).is_suffix_of(error.message@) && json::has_member(
            error.details@,
            "name"@,
            JsonModel::Text(name@),
        ),
{
    let all = order::models(backends@);
    lemma_place(all, name@, 0);
    assert forall|j: int| 0 <= j < backends@.len() implies all[j].name == (
    #[trigger] backends@[j]).name@ by {
        assert(all[j] == backends@[j]@);
    }
    if let Err(error) = r {
        lemma_unknown_is_told(error, name@);
    }
}

proof fn lemma_unknown_is_told(error: CommandError, name: Seq<char>)
    requires
        error@ == unknown_backend(name),
    ensures
        error.code@ == "backend_not_found"@,
        (": "@ + name).is_suffix_of(error.message@),
        json::has_member(error.details@, "name"@, JsonModel::Text(name)),
{
    reveal_strlit("unknown backend: ");
    reveal_strlit(": ");
    let end = ": "@ + name;
    let told = error.message@;
    assert(told.skip(told.len() - end.len()) =~= end);
    let members = error.details@->Object_0;
    assert(members[0] == ("name"@, JsonModel::Text(name)));
    json::lemma_member_is_there(members, 0);
}

/// A name is free exactly where no backend has it. The error of one that is taken shows the
/// backend that has it and the path that was asked for.
pub proof fn taken_names_are_refused(
    config: &Config,
    name: &str,
    path: &str,
    r: Result<(), CommandError>,
    k: int,
    existing: Json,
)
    requires
        call_ensures(check_new_backend, (config, name, path), r),
        0 <= k <= config.backends@.len(),
        forall|j: int| 0 <= j < k ==> (#[trigger] config.backends@[j]).name@ != name@,
        k < config.backends@.len() ==> config.backends@[k].name@ == name@ && call_ensures(
            documents::backend_json,
            (&config.backends@[k],),
            existing,
        ),
    ensures
        r is Ok <==> k == config.backends@.len(),
        r matches Err(error) ==> error.code@ == "backend_already_exists"@ && (": "@
            + name@).is_suffix_of(error.message@) && json::has_member(
            error.details@,
            "existing"@,
            existing@,
        ) && json::has_member(error.details@, "attempted_path"@, JsonModel::Text(path@)),
{
    let all = config@.backends;
    lemma_place(all, name@, 0);
    assert forall|j: int| 0 <= j < config.backends@.len() implies all[j].name == (
    #[trigger] config.backends@[j]).name@ by {
        assert(all[j] == config.backends@[j]@);
    }
    if k < config.backends@.len() {
        assert(all[k].name == config.backends@[k].name@);
        let i = place_of(all, name@, 0)->0;
        assert(all[i].name == config.backends@[i].name@);
        assert(i == k);
        reveal_strlit("backend already exists: ");
        reveal_strlit(": ");
        let error = r->Err_0;
        let told = error.message@;
        let end = ": "@ + name@;
        assert(told.skip(told.len() - end.len()) =~= end);
        reveal_strlit("existing");
        reveal_strlit("attempted_path");
        let members = error.details@->Object_0;
        assert(members[0].0 == "existing"@);
        assert(members[1].0 == "attempted_path"@);
        assert("existing"@.len() == 8);
        assert("attempted_path"@.len() == 14);
        assert(json::names_differ(members));
        json::lemma_member_is_there(members, 0);
        json::lemma_member_is_there(members, 1);
    }
}

/// Removing a name keeps the backends of other names and takes out those of the name, both in
/// their order.
pub proof fn removing_parts_the_backends_by_name(backends: Seq<BackendModel>, name: Seq<char>)
    ensures
        without_name(backends, name) == backends.filter(|b: BackendModel| b.name != name),
        with_name(backends, name) == backends.filter(|b: BackendModel| b.name == name),
        without_name(backends, name).len() + with_name(backends, name).len() == backends.len(),
    decreases backends.len(),
{
    reveal(Seq::filter);
    if backends.len() > 0 {
        removing_parts_the_backends_by_name(backends.drop_last(), name);
    } else {
        assert(without_name(backends, name) =~= backends.filter(|b: BackendModel| b.name != name));
        assert(with_name(backends, name) =~= backends.filter(|b: BackendModel| b.name == name));
    }
}

/// A backend has to be tried before it is enabled, and none before one is disabled; a name that
/// no backend has is an error either way.
pub proof fn only_enabling_is_tried(
    config: &Config,
    name: &str,
    enabled: bool,
    r: Result<Option<usize>, CommandError>,
)
    requires
        call_ensures(enabling, (config, name, enabled), r),
    ensures
        r is Err <==> forall|j: int|
            0 <= j < config.backends@.len() ==> (#[trigger] config.backends@[j]).name@ != name@,
        r matches Ok(tried) ==> (tried is Some <==> enabled),
        r matches Ok(Some(i)) ==> i < config.backends@.len() && config.backends@[i as int].name@
            == name@ && (forall|j: int|
            0 <= j < i ==> (#[trigger] config.backends@[j]).name@ != name@),
        r matches Err(error) ==> error.code@ == "backend_not_found"@,
{
    let all = config@.backends;
    lemma_place(all, name@, 0);
    assert forall|j: int| 0 <= j < config.backends@.len() implies all[j].name == (
    #[trigger] config.backends@[j]).name@ by {
        assert(all[j] == config.backends@[j]@);
    }
    if let Some(i) = place_of(all, name@, 0) {
        assert(all[i].name == config.backends@[i].name@);
    }
}

/// Switching changes the flag of one backend: every other is as it was, and so is all else of
/// that one and of the configuration.
pub proof fn switching_touches_one_backend(c: ConfigModel, i: int, enabled: bool, j: int)
    requires
        0 <= i < c.backends.len(),
        0 <= j < c.backends.len(),
    ensures
        ({
            let s = switched(c, i, enabled);
            &&& s.backends.len() == c.backends.len()
            &&& j != i ==> s.backends[j] == c.backends[j]
            &&& s.backends[i].enabled == enabled
            &&& s.backends[i].name == c.backends[i].name
            &&& s.backends[i].path == c.backends[i].path
            &&& s.backends[i].kind == c.backends[i].kind
            &&& s.backends[i].relation == c.backends[i].relation
            &&& s.views == c.views
            &&& s.workers == c.workers && s.threads_per_worker == c.threads_per_worker
            &&& s.listen == c.listen && s.max_rows == c.max_rows
            &&& s.request_timeout_seconds == c.request_timeout_seconds && s.version == c.version
        }),
{
}

proof fn lemma_view_place(list: Seq<ViewModel>, schema: Seq<char>, name: Seq<char>, from: int)
    requires
        0 <= from,
    ensures
        match view_place(list, schema, name, from) {
            Some(i) => from <= i < list.len() && list[i].schema == schema && list[i].name == name
                && forall|j: int|
                from <= j < i ==> !((#[trigger] list[j]).schema == schema && list[j].name == name),
            None => forall|j: int|
                from <= j < list.len() ==> !((#[trigger] list[j]).schema == schema && list[j].name
                    == name),
        },
    decreases list.len() - from,
{
    if from < list.len() && !(list[from].schema == schema && list[from].name == name) {
        lemma_view_place(list, schema, name, from + 1);
    }
}

/// A schema and a name stand for the first view that has both. Where none has both, that is an
/// error that names them.
pub proof fn views_are_found_by_schema_and_name(
    config: &Config,
    schema: &str,
    name: &str,
    i: Option<usize>,
    r: Result<&LogicalView, CommandError>,
)
    requires
        call_ensures(find_view, (&config.views, schema, name), i),
        call_ensures(get_view, (config, schema, name), r),
    ensures
        i matches Some(k) ==> k < config.views@.len() && config.views@[k as int].schema@
            == schema@ && config.views@[k as int].name@ == name@ && (forall|j: int|
            0 <= j < k ==> !((#[trigger] config.views@[j]).schema@ == schema@
                && config.views@[j].name@ == name@)),
        i is None <==> forall|j: int|
            0 <= j < config.views@.len() ==> !((#[trigger] config.views@[j]).schema@ == schema@
                && config.views@[j].name@ == name@),
        r is Ok <==> i is Some,
        r matches Ok(view) ==> view@ == config.views@[i->0 as int]@,
        r matches Err(error) ==> error.code@ == "view_not_found"@ && (": "@ + schema@ + "."@
            + name@).is_suffix_of(error.message@) && json::has_member(
            error.details@,
            "name"@,
            JsonModel::Text(schema@ + "."@ + name@),
        ),
{
    let all = order::models(config.views@);
    assert(all == config@.views);
    lemma_view_place(all, schema@, name@, 0);
    assert forall|j: int| 0 <= j < config.views@.len() implies all[j].schema == (
    #[trigger] config.views@[j]).schema@ && all[j].name == config.views@[j].name@ by {
        assert(all[j] == config.views@[j]@);
    }
    if let Some(k) = i {
        assert(all[k as int].schema == config.views@[k as int].schema@);
    }
    if let Err(error) = r {
        reveal_strlit("unknown view: ");
        reveal_strlit(": ");
        let told = error.message@;
        let end = ": "@ + schema@ + "."@ + name@;
        assert(told.skip(told.len() - end.len()) =~= end);
        let members = error.details@->Object_0;
        assert(members[0] == ("name"@, JsonModel::Text(schema@ + "."@ + name@)));
        json::lemma_member_is_there(members, 0);
    }
}

/// An input is written with an equals sign: what stands in front of the first is the backend, what
/// stands behind it the relation, and it maps no columns. A text without one is no input.
pub proof fn inputs_are_parted_at_the_first_equals_sign(
    value: &str,
    backend: Seq<char>,
    relation: Seq<char>,
    r: Result<ViewInput, String>,
)
    requires
        call_ensures(parse_input, (value,), r),
        !backend.contains('='),
    ensures
        value@ == backend + seq!['='] + relation ==> (r matches Ok(input) && input.backend@
            == backend && input.relation@ == relation && input.columns@.len() == 0),
        value@ == backend ==> r is Err,
{
    if value@ == backend + seq!['='] + relation {
        lemma_sides(backend, relation, 0);
        let input = r->Ok_0;
        let model = input@;
        assert(model.backend == input.backend@ && model.relation == input.relation@);
        assert(model.columns == input.columns@);
    }
    if value@ == backend {
        lemma_no_sides(backend, 0);
    }
}

proof fn lemma_no_sides(value: Seq<char>, from: int)
    requires
        0 <= from,
        !value.contains('='),
    ensures
        sides(value, from) is None,
    decreases value.len() - from,
{
    if from < value.len() {
        assert(value.contains(value[from]));
        lemma_no_sides(value, from + 1);
    }
}

/// The place of a name is that of the first backend that has it, where one does.
pub proof fn backend_places(backends: Seq<BackendModel>, name: Seq<char>)
    ensures
        place_of(backends, name, 0) is Some <==> exists|j: int|
            0 <= j < backends.len() && (#[trigger] backends[j]).name == name,
        place_of(backends, name, 0) matches Some(i) ==> 0 <= i < backends.len() && backends[i].name
            == name && (forall|j: int| 0 <= j < i ==> (#[trigger] backends[j]).name != name),
{
    lemma_place(backends, name, 0);
}

/// The place of a schema and a name is that of the first view that has both, where one does.
pub proof fn places_of_views(list: Seq<ViewModel>, schema: Seq<char>, name: Seq<char>)
    ensures
        view_place(list, schema, name, 0) is Some <==> exists|j: int|
            0 <= j < list.len() && (#[trigger] list[j]).schema == schema && list[j].name == name,
        view_place(list, schema, name, 0) matches Some(i) ==> 0 <= i < list.len()
            && list[i].schema == schema && list[i].name == name && (forall|j: int|
            0 <= j < i ==> !((#[trigger] list[j]).schema == schema && list[j].name == name)),
{
    lemma_view_place(list, schema, name, 0);
}

// ---------------------------------------------------------------------------
// Laws of changing
// ---------------------------------------------------------------------------

/// A backend is added behind the others exactly where none has its name, and nothing else changes;
/// where one has it, nothing does.
pub proof fn backends_are_added_behind_the_others(
    config: &mut Config,
    backend: Backend,
    r: Result<(), CommandError>,
)
    requires
        call_ensures(add_backend, (config, backend), r),
    ensures
        r is Err <==> exists|j: int|
            0 <= j < old(config)@.backends.len() && (#[trigger] old(config)@.backends[j]).name
                == backend.name@,
        r is Ok ==> final(config)@.backends == old(config)@.backends.push(backend@),
        r is Ok ==> final(config)@ == (ConfigModel {
            backends: final(config)@.backends,
            ..old(config)@
        }),
        r is Err ==> final(config)@ == old(config)@,
        r matches Err(error) ==> error.code@ == "backend_already_exists"@,
{
    backend_places(old(config)@.backends, backend@.name);
}

/// Removing a name leaves the backends of other names, in their order, and hands out those of the
/// name; a name that none has changes nothing. Removing all leaves none and hands out all. The
/// views and the numbers stay.
pub proof fn backends_are_removed_by_name(
    config: &mut Config,
    name: &str,
    r: Result<Vec<Backend>, CommandError>,
)
    requires
        call_ensures(remove_backend, (config, name), r),
    ensures
        r is Err <==> forall|j: int|
            0 <= j < old(config)@.backends.len() ==> (#[trigger] old(config)@.backends[j]).name
                != name@,
        r matches Ok(removed) ==> order::models(removed@) == old(config)@.backends.filter(
            |b: BackendModel| b.name == name@,
        ),
        r is Ok ==> final(config)@.backends == old(config)@.backends.filter(
            |b: BackendModel| b.name != name@,
        ),
        final(config)@ == (ConfigModel { backends: final(config)@.backends, ..old(config)@ }),
        r is Err ==> final(config)@ == old(config)@,
{
    removing_parts_the_backends_by_name(old(config)@.backends, name@);
}

/// Removing all backends leaves none and hands out all of them, in their order. The views and the
/// numbers stay.
pub proof fn all_backends_are_removed(config: &mut Config, removed: Vec<Backend>)
    requires
        call_ensures(remove_all, (config,), removed),
    ensures
        order::models(removed@) == old(config)@.backends,
        final(config)@.backends.len() == 0,
        final(config)@ == (ConfigModel { backends: final(config)@.backends, ..old(config)@ }),
{
}

/// Switching a name sets the flag of the first backend that has it, and tells whether that was
/// otherwise before. A name that none has changes nothing.
pub proof fn switching_sets_one_flag(
    config: &mut Config,
    name: &str,
    enabled: bool,
    r: Result<bool, CommandError>,
    k: int,
)
    requires
        call_ensures(set_enabled, (config, name, enabled), r),
        0 <= k <= old(config)@.backends.len(),
        forall|j: int| 0 <= j < k ==> (#[trigger] old(config)@.backends[j]).name != name@,
        k < old(config)@.backends.len() ==> old(config)@.backends[k].name == name@,
    ensures
        r is Err <==> k == old(config)@.backends.len(),
        r is Err ==> final(config)@ == old(config)@,
        r matches Ok(changed) ==> (changed <==> old(config)@.backends[k].enabled != enabled),
        r is Ok ==> final(config)@.backends == old(config)@.backends.update(
            k,
            BackendModel { enabled, ..old(config)@.backends[k] },
        ),
        final(config)@ == (ConfigModel { backends: final(config)@.backends, ..old(config)@ }),
{
    let c = old(config)@;
    backend_places(c.backends, name@);
    if let Some(i) = place_of(c.backends, name@, 0) {
        assert(c.backends[i].name == name@);
        assert(k <= i);
        if k < i {
            assert(c.backends[k].name == name@);
        }
    } else if k < c.backends.len() {
        assert(c.backends[k].name == name@);
    }
}

/// A view is added behind the others exactly where none has its schema and its name, and nothing
/// else changes; where one has both, nothing does.
pub proof fn views_are_added_behind_the_others(
    config: &mut Config,
    view: LogicalView,
    r: Result<(), CommandError>,
)
    requires
        call_ensures(add_view, (config, view), r),
    ensures
        r is Err <==> exists|j: int|
            0 <= j < old(config)@.views.len() && (#[trigger] old(config)@.views[j]).schema
                == view.schema@ && old(config)@.views[j].name == view.name@,
        r is Ok ==> final(config)@.views == old(config)@.views.push(view@),
        final(config)@ == (ConfigModel { views: final(config)@.views, ..old(config)@ }),
        r is Err ==> final(config)@ == old(config)@,
{
    places_of_views(old(config)@.views, view@.schema, view@.name);
}

/// The column that tells the source of a row, unless a view says otherwise, has a name that may
/// stand in a configuration.
pub proof fn the_default_source_column_is_a_name(r: String)
    requires
        call_ensures(default_source_column, (), r),
    ensures
        validate::is_a_name(r@),
        r@ == "_source_backend"@,
{
    reveal_strlit("_source_backend");
    let name = "_source_backend"@;
    assert forall|i: int| 1 <= i < name.len() implies validate::opens_a_name(#[trigger] name[i])
        || ('0' <= name[i] && name[i] <= '9') by {
    }
}

} // verus!
