//! The values that modules keep.

use crate::engine;
use crate::json::{self, Json, JsonValue};
use crate::state_engine;
use crate::types::{ModuleLoadState, ModuleStatus, ModuleView, RuntimeState, RuntimeView};
use vstd::prelude::*;

verus! {

/// The place of the module of the given name, or the number of modules.
pub open spec fn module_place(modules: Seq<ModuleView>, name: Seq<char>) -> int {
    state_engine::first_where(modules, |m: ModuleView| m.name == name, 0)
}

/// The value that a module keeps under a key.
pub open spec fn kept(modules: Seq<ModuleView>, module: Seq<char>, key: Seq<char>) -> Option<Json> {
    let i = module_place(modules, module);
    if i < modules.len() && modules[i].store.contains_key(key) {
        Some(modules[i].store[key])
    } else {
        None
    }
}

/// The modules after one was told to keep a value. One that is not known yet
/// counts as loaded from then on.
pub open spec fn keeping(
    modules: Seq<ModuleView>,
    module: Seq<char>,
    key: Seq<char>,
    value: Json,
) -> Seq<ModuleView> {
    let i = module_place(modules, module);
    if i < modules.len() {
        modules.update(i, ModuleView { store: modules[i].store.insert(key, value), ..modules[i] })
    } else {
        modules.push(
            ModuleView {
                name: module,
                status: ModuleLoadState::Loaded,
                last_error: None,
                builtin: false,
                store: Map::empty().insert(key, value),
            },
        )
    }
}

/// The value that a module keeps under a key.
pub fn module_store_get(state: &RuntimeState, module: &str, key: &str) -> (r: Option<JsonValue>)
    ensures
        r.deep_view() == kept(state@.modules, module@, key@),
{
    let i = engine::module_index(&state.modules, module);
    assert(state@.modules.len() == state.modules@.len());
    if i < state.modules.len() {
        assert(state@.modules[i as int] == state.modules@[i as int].deep_view());
        match json::field(&state.modules[i].store, key) {
            Some(v) => Some(v.duplicate()),
            None => None,
        }
    } else {
        None
    }
}

proof fn lemma_set_field(fields: Seq<(String, JsonValue)>, i: int, pair: (String, JsonValue))
    requires
        0 <= i < fields.len(),
        fields[i].0@ == pair.0@,
        forall|k: int| i < k < fields.len() ==> (#[trigger] fields[k]).0@ != pair.0@,
    ensures
        json::field_models(fields.update(i, pair)) == json::field_models(fields).insert(
            pair.0@,
            json::model(pair.1),
        ),
    decreases fields.len(),
{
    let after = fields.update(i, pair);
    if i == fields.len() - 1 {
        assert(after.drop_last() =~= fields.drop_last());
        assert(json::field_models(after) =~= json::field_models(fields).insert(
            pair.0@,
            json::model(pair.1),
        ));
    } else {
        lemma_set_field(fields.drop_last(), i, pair);
        assert(after.drop_last() =~= fields.drop_last().update(i, pair));
        assert(after.last() == fields.last());
        assert(json::field_models(after) =~= json::field_models(fields).insert(
            pair.0@,
            json::model(pair.1),
        ));
    }
}

fn set_field(fields: &mut Vec<(String, JsonValue)>, key: String, value: JsonValue)
    ensures
        json::field_models(final(fields)@) == json::field_models(old(fields)@).insert(key@, value@),
{
    let ghost before = fields@;
    let mut i: usize = fields.len();
    while i > 0
        invariant
            i <= fields.len(),
            fields@ == before,
            before == old(fields)@,
            forall|k: int| i <= k < before.len() ==> (#[trigger] before[k]).0@ != key@,
        decreases i,
    {
        i -= 1;
        if fields[i].0.eq(&key) {
            let ghost pair = (key, value);
            proof {
                lemma_set_field(before, i as int, pair);
            }
            fields.set(i, (key, value));
            assert(fields@ =~= before.update(i as int, pair));
            return;
        }
    }
    fields.push((key, value));
    assert(fields@.drop_last() =~= before);
}

/// Has a module keep a value under a key.
pub fn module_store_set(state: &mut RuntimeState, module: &str, key: String, value: JsonValue)
    ensures
        final(state)@ == (RuntimeView {
            modules: keeping(old(state)@.modules, module@, key@, value@),
            ..old(state)@
        }),
{
    let i = engine::module_index(&state.modules, module);
    let ghost before = state.modules.deep_view();
    let ghost after = keeping(before, module@, key@, value@);
    if i < state.modules.len() {
        assert(before[i as int] == state.modules@[i as int].deep_view());
        set_field(&mut state.modules[i].store, key, value);
    } else {
        let mut store: Vec<(String, JsonValue)> = Vec::new();
        let ghost none = store@;
        assert(json::field_models(none) =~= Map::empty());
        store.push((key, value));
        assert(store@.drop_last() =~= none);
        assert(json::field_models(store@) =~= after.last().store);
        let m = ModuleStatus {
            name: module.to_owned(),
            status: ModuleLoadState::Loaded,
            last_error: None,
            builtin: false,
            store,
        };
        assert(m.deep_view() =~= after.last());
        state.modules.push(m);
        assert(state.modules.deep_view() =~= after);
    }
    assert(state.modules.deep_view() =~= after);
}

/// What a module was told to keep it gives back, and what it kept under other
/// keys stays.
pub proof fn law_store_gives_back(
    modules: Seq<ModuleView>,
    module: Seq<char>,
    key: Seq<char>,
    value: Json,
    other: Seq<char>,
)
    ensures
        kept(keeping(modules, module, key, value), module, key) == Some(value),
        other != key ==> kept(keeping(modules, module, key, value), module, other) == kept(
            modules,
            module,
            other,
        ),
{
    let p = |m: ModuleView| m.name == module;
    let i = module_place(modules, module);
    let after = keeping(modules, module, key, value);
    let k = module_place(after, module);
    state_engine::lemma_first_where(modules, p, 0);
    state_engine::lemma_first_where(after, p, 0);
    assert(p(after[i]));
    if k < i {
        assert(after[k] == modules[k]);
    }
}

/// What one module keeps says nothing of another.
pub proof fn law_stores_are_separate(
    modules: Seq<ModuleView>,
    module: Seq<char>,
    key: Seq<char>,
    value: Json,
    neighbour: Seq<char>,
    k: Seq<char>,
)
    requires
        neighbour != module,
    ensures
        kept(keeping(modules, module, key, value), neighbour, k) == kept(modules, neighbour, k),
{
    let p = |m: ModuleView| m.name == module;
    let q = |m: ModuleView| m.name == neighbour;
    let after = keeping(modules, module, key, value);
    let a = module_place(modules, neighbour);
    let b = module_place(after, neighbour);
    state_engine::lemma_first_where(modules, p, 0);
    state_engine::lemma_first_where(modules, q, 0);
    state_engine::lemma_first_where(after, q, 0);
    assert forall|j: int| 0 <= j < modules.len() implies q(#[trigger] after[j]) == q(modules[j]) by {}
    if a < modules.len() {
        assert(q(after[a]));
        if b < a {
            assert(q(modules[b]));
        }
        assert(a == b);
        assert(after[a] == modules[a]);
    } else if b < after.len() {
        assert(q(after[b]));
        if b < modules.len() {
            assert(q(modules[b]));
        }
        assert(false);
    }
}

/// What a module keeps changes nothing else of it. A module that is not known yet comes
/// to be known as loaded.
pub proof fn law_keeping_changes_nothing_else(
    modules: Seq<ModuleView>,
    module: Seq<char>,
    key: Seq<char>,
    value: Json,
    k: int,
)
    ensures
        0 <= k < modules.len() ==> ({
            let m = keeping(modules, module, key, value)[k];
            &&& m.name == modules[k].name
            &&& m.status == modules[k].status
            &&& m.last_error == modules[k].last_error
            &&& m.builtin == modules[k].builtin
        }),
        (forall|i: int| 0 <= i < modules.len() ==> (#[trigger] modules[i]).name != module) ==> ({
            let after = keeping(modules, module, key, value);
            &&& after.len() == modules.len() + 1
            &&& after.last().name == module
            &&& after.last().status == ModuleLoadState::Loaded
            &&& after.last().last_error is None
            &&& !after.last().builtin
        }),
{
    let p = |m: ModuleView| m.name == module;
    state_engine::lemma_first_where(modules, p, 0);
    let i = module_place(modules, module);
    if i < modules.len() {
        assert(p(modules[i]));
    }
}

} // verus!
