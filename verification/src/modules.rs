//! Lua modules: what they declare, and the order in which they are loaded.

use crate::paths;
use crate::text;
use vstd::prelude::*;

verus! {

/// What a module declares.
#[derive(Debug)]
pub struct ModuleDecl {
    pub name: String,
    pub version: Option<String>,
    /// The modules that have to be loaded before this one.
    pub after: Vec<String>,
    pub path: String,
    /// The program text, where the module is built in.
    pub source: Option<String>,
    pub builtin: bool,
}

/// What a module declaration stands for.
#[verifier::ext_equal]
pub struct DeclView {
    pub name: Seq<char>,
    pub version: Option<Seq<char>>,
    pub after: Seq<Seq<char>>,
    pub path: Seq<char>,
    pub source: Option<Seq<char>>,
    pub builtin: bool,
}

impl DeepView for ModuleDecl {
    type V = DeclView;

    open spec fn deep_view(&self) -> DeclView {
        DeclView {
            name: self.name@,
            version: self.version.deep_view(),
            after: self.after.deep_view(),
            path: self.path@,
            source: self.source.deep_view(),
            builtin: self.builtin,
        }
    }
}

/// A list of the same texts.
pub fn duplicate_texts(v: &Vec<String>) -> (r: Vec<String>)
    ensures
        r.deep_view() == v.deep_view(),
{
    let mut r: Vec<String> = Vec::new();
    let mut i: usize = 0;
    while i < v.len()
        invariant
            i <= v.len(),
            r.len() == i,
            forall|k: int| 0 <= k < i ==> (#[trigger] r@[k])@ == v@[k]@,
        decreases v.len() - i,
    {
        r.push(v[i].clone());
        i += 1;
    }
    assert(r.deep_view() =~= v.deep_view());
    r
}

impl ModuleDecl {
    /// A declaration that stands for the same.
    pub fn duplicate(&self) -> (r: ModuleDecl)
        ensures
            r.deep_view() == self.deep_view(),
    {
        ModuleDecl {
            name: self.name.clone(),
            version: self.version.clone(),
            after: duplicate_texts(&self.after),
            path: self.path.clone(),
            source: self.source.clone(),
            builtin: self.builtin,
        }
    }
}

/// A module of that name is among the given ones.
pub open spec fn known(decls: Seq<DeclView>, name: Seq<char>) -> bool {
    exists|i: int| 0 <= i < decls.len() && (#[trigger] decls[i]).name == name
}

/// The first declaration of each name.
pub open spec fn firsts(decls: Seq<DeclView>) -> Seq<DeclView>
    decreases decls.len(),
{
    if decls.len() == 0 {
        Seq::empty()
    } else {
        let before = firsts(decls.drop_last());
        if known(before, decls.last().name) {
            before
        } else {
            before.push(decls.last())
        }
    }
}

/// The complaints about names that were declared before.
pub open spec fn repeats(decls: Seq<DeclView>) -> Seq<(Seq<char>, Seq<char>)>
    decreases decls.len(),
{
    if decls.len() == 0 {
        Seq::empty()
    } else {
        let before = repeats(decls.drop_last());
        if known(firsts(decls.drop_last()), decls.last().name) {
            before.push((decls.last().name, "duplicate module name"@))
        } else {
            before
        }
    }
}

/// The names among `wanted` under which there is no module.
pub open spec fn absent(decls: Seq<DeclView>, wanted: Seq<Seq<char>>) -> Seq<Seq<char>>
    decreases wanted.len(),
{
    if wanted.len() == 0 {
        Seq::empty()
    } else {
        let before = absent(decls, wanted.drop_last());
        if known(decls, wanted.last()) {
            before
        } else {
            before.push(wanted.last())
        }
    }
}

/// The complaints about the first `n` modules that need what is not there.
pub open spec fn lacking(decls: Seq<DeclView>, n: int) -> Seq<(Seq<char>, Seq<char>)>
    decreases n,
{
    if n <= 0 {
        Seq::empty()
    } else {
        let before = lacking(decls, n - 1);
        let gone = absent(decls, decls[n - 1].after);
        if gone.len() == 0 {
            before
        } else {
            before.push((decls[n - 1].name, "missing dependency: "@ + text::join(gone, ", "@)))
        }
    }
}

/// The complaints about those of the first `n` modules that lack nothing and
/// yet have no place in the order.
pub open spec fn stuck(decls: Seq<DeclView>, ordered: Seq<DeclView>, n: int) -> Seq<
    (Seq<char>, Seq<char>),
>
    decreases n,
{
    if n <= 0 {
        Seq::empty()
    } else {
        let before = stuck(decls, ordered, n - 1);
        let d = decls[n - 1];
        if absent(decls, d.after).len() == 0 && !known(ordered, d.name) {
            before.push((d.name, "circular dependency"@))
        } else {
            before
        }
    }
}

/// Every module that `d` has to come after is among those placed, and `d`
/// itself is not.
pub open spec fn ready(placed: Seq<DeclView>, d: DeclView) -> bool {
    &&& !known(placed, d.name)
    &&& forall|j: int| 0 <= j < d.after.len() ==> known(placed, #[trigger] d.after[j])
}

/// `d` is the choice for the next place: of the modules that are ready, the one
/// with the last name.
pub open spec fn next_choice(decls: Seq<DeclView>, placed: Seq<DeclView>, d: DeclView) -> bool {
    &&& decls.contains(d)
    &&& ready(placed, d)
    &&& forall|i: int|
        0 <= i < decls.len() && ready(placed, #[trigger] decls[i]) ==> !text::precedes(
            d.name,
            decls[i].name,
        )
}

/// `ordered` is the order in which the modules are loaded: each is the choice
/// for its place, and when it ends no module is ready.
pub open spec fn is_load_order(decls: Seq<DeclView>, ordered: Seq<DeclView>) -> bool {
    &&& forall|k: int|
        0 <= k < ordered.len() ==> next_choice(decls, ordered.take(k), #[trigger] ordered[k])
    &&& forall|i: int| 0 <= i < decls.len() ==> !ready(ordered, #[trigger] decls[i])
}

fn is_known(decls: &Vec<ModuleDecl>, name: &str) -> (r: bool)
    ensures
        r == known(decls.deep_view(), name@),
{
    let mut i: usize = 0;
    while i < decls.len()
        invariant
            i <= decls.len(),
            forall|k: int| 0 <= k < i ==> (#[trigger] decls.deep_view()[k]).name != name@,
        decreases decls.len() - i,
    {
        assert(decls.deep_view()[i as int] == decls@[i as int].deep_view());
        if text::same(decls[i].name.as_str(), name) {
            assert(decls.deep_view()[i as int].name == name@);
            return true;
        }
        i += 1;
    }
    false
}

fn absent_names(decls: &Vec<ModuleDecl>, wanted: &Vec<String>) -> (r: Vec<String>)
    ensures
        r.deep_view() == absent(decls.deep_view(), wanted.deep_view()),
{
    let mut r: Vec<String> = Vec::new();
    let mut i: usize = 0;
    assert(r.deep_view() =~= Seq::empty());
    assert(wanted.deep_view().take(0) =~= Seq::empty());
    while i < wanted.len()
        invariant
            i <= wanted.len(),
            r.deep_view() == absent(decls.deep_view(), wanted.deep_view().take(i as int)),
        decreases wanted.len() - i,
    {
        let ghost before = r.deep_view();
        proof {
            let t = wanted.deep_view().take(i + 1);
            assert(t.drop_last() =~= wanted.deep_view().take(i as int));
            assert(t.last() == wanted@[i as int]@);
        }
        if !is_known(decls, wanted[i].as_str()) {
            r.push(wanted[i].clone());
            assert(r.deep_view() =~= before.push(wanted@[i as int]@));
        }
        i += 1;
    }
    assert(wanted.deep_view().take(wanted@.len() as int) =~= wanted.deep_view());
    r
}

fn is_ready(placed: &Vec<ModuleDecl>, d: &ModuleDecl) -> (r: bool)
    ensures
        r == ready(placed.deep_view(), d.deep_view()),
{
    if is_known(placed, d.name.as_str()) {
        return false;
    }
    let mut j: usize = 0;
    while j < d.after.len()
        invariant
            j <= d.after.len(),
            forall|k: int|
                0 <= k < j ==> known(placed.deep_view(), #[trigger] d.deep_view().after[k]),
        decreases d.after.len() - j,
    {
        assert(d.deep_view().after[j as int] == d.after@[j as int]@);
        if !is_known(placed, d.after[j].as_str()) {
            return false;
        }
        j += 1;
    }
    true
}

fn choose_next(decls: &Vec<ModuleDecl>, placed: &Vec<ModuleDecl>) -> (r: Option<usize>)
    ensures
        match r {
            Some(i) => i < decls.len() && next_choice(
                decls.deep_view(),
                placed.deep_view(),
                decls@[i as int].deep_view(),
            ),
            None => forall|i: int|
                0 <= i < decls.len() ==> !ready(
                    placed.deep_view(),
                    #[trigger] decls.deep_view()[i],
                ),
        },
{
    let mut best: Option<usize> = None;
    let mut i: usize = 0;
    while i < decls.len()
        invariant
            i <= decls.len(),
            match best {
                Some(b) => b < i && ready(placed.deep_view(), decls.deep_view()[b as int]) && (
                forall|k: int|
                    0 <= k < i && ready(placed.deep_view(), #[trigger] decls.deep_view()[k])
                        ==> !text::precedes(
                        decls.deep_view()[b as int].name,
                        decls.deep_view()[k].name,
                    )),
                None => forall|k: int|
                    0 <= k < i ==> !ready(placed.deep_view(), #[trigger] decls.deep_view()[k]),
            },
        decreases decls.len() - i,
    {
        let ghost view = decls.deep_view();
        assert(view[i as int] == decls@[i as int].deep_view());
        if is_ready(placed, &decls[i]) {
            match best {
                Some(b) => {
                    assert(view[b as int] == decls@[b as int].deep_view());
                    if text::is_before(decls[b].name.as_str(), decls[i].name.as_str()) {
                        proof {
                            let old_best = view[b as int].name;
                            let new_best = view[i as int].name;
                            assert forall|k: int|
                                0 <= k < i + 1 && ready(placed.deep_view(), #[trigger] view[k])
                                implies !text::precedes(new_best, view[k].name) by {
                                text::lemma_precedes_total(new_best, new_best);
                                if k < i && text::precedes(new_best, view[k].name) {
                                    text::lemma_precedes_transitive(
                                        old_best,
                                        new_best,
                                        view[k].name,
                                    );
                                }
                            }
                        }
                        best = Some(i);
                    }
                },
                None => {
                    proof {
                        text::lemma_precedes_total(view[i as int].name, view[i as int].name);
                    }
                    best = Some(i);
                },
            }
        }
        i += 1;
    }
    if let Some(b) = best {
        assert(decls.deep_view()[b as int] == decls@[b as int].deep_view());
    }
    best
}

/// How many of the first `n` modules have no place yet.
pub open spec fn unplaced(decls: Seq<DeclView>, placed: Seq<DeclView>, n: int) -> nat
    decreases n,
{
    if n <= 0 {
        0
    } else if known(placed, decls[n - 1].name) {
        unplaced(decls, placed, n - 1)
    } else {
        unplaced(decls, placed, n - 1) + 1
    }
}

proof fn lemma_known_push(placed: Seq<DeclView>, d: DeclView, name: Seq<char>)
    ensures
        known(placed.push(d), name) <==> known(placed, name) || d.name == name,
{
    let after = placed.push(d);
    if known(placed, name) {
        let i = choose|i: int| 0 <= i < placed.len() && (#[trigger] placed[i]).name == name;
        assert(after[i].name == name);
    }
    if d.name == name {
        assert(after[placed.len() as int].name == name);
    }
    if known(after, name) {
        let i = choose|i: int| 0 <= i < after.len() && (#[trigger] after[i]).name == name;
        if i < placed.len() {
            assert(placed[i].name == name);
        }
    }
}

proof fn lemma_unplaced_shrinks(decls: Seq<DeclView>, placed: Seq<DeclView>, d: DeclView, n: int)
    requires
        0 <= n <= decls.len(),
    ensures
        unplaced(decls, placed.push(d), n) <= unplaced(decls, placed, n),
        (exists|i: int| 0 <= i < n && #[trigger] decls[i] == d) && !known(placed, d.name)
            ==> unplaced(decls, placed.push(d), n) < unplaced(decls, placed, n),
    decreases n,
{
    if n > 0 {
        lemma_unplaced_shrinks(decls, placed, d, n - 1);
        lemma_known_push(placed, d, decls[n - 1].name);
        if (exists|i: int| 0 <= i < n && #[trigger] decls[i] == d) && !known(placed, d.name) {
            let i = choose|i: int| 0 <= i < n && #[trigger] decls[i] == d;
            if i < n - 1 {
                assert(decls[i] == d);
            }
        }
    }
}

/// Orders the modules so that each comes after those that it names; of several
/// that could come next, the one with the last name does. The modules without a
/// place are told with the reason: a name that was taken, a module that is not
/// there, or modules that wait for one another.
pub fn order_module_decls(decls: Vec<ModuleDecl>) -> (r: (Vec<ModuleDecl>, Vec<(String, String)>))
    ensures
        is_load_order(firsts(decls.deep_view()), r.0.deep_view()),
        ({
            let kept = firsts(decls.deep_view());
            r.1.deep_view() == repeats(decls.deep_view()) + lacking(kept, kept.len() as int)
                + stuck(kept, r.0.deep_view(), kept.len() as int)
        }),
{
    let ghost given = decls.deep_view();
    let mut errors: Vec<(String, String)> = Vec::new();
    let mut kept: Vec<ModuleDecl> = Vec::new();
    assert(errors.deep_view() =~= Seq::empty());
    assert(kept.deep_view() =~= Seq::empty());
    assert(given.take(0) =~= Seq::empty());
    for decl in it: decls
        invariant
            it.seq().len() == given.len(),
            forall|i: int| 0 <= i < given.len() ==> (#[trigger] it.seq()[i]).deep_view() == given[i],
            kept.deep_view() == firsts(given.take(it.index() as int)),
            errors.deep_view() == repeats(given.take(it.index() as int)),
    {
        let ghost n = it.index() as int;
        let ghost view = decl.deep_view();
        let ghost kept_before = kept.deep_view();
        let ghost errors_before = errors.deep_view();
        assert(given.take(n + 1).drop_last() =~= given.take(n));
        assert(given.take(n + 1).last() == view);
        if is_known(&kept, decl.name.as_str()) {
            errors.push((decl.name.clone(), "duplicate module name".to_owned()));
            assert(errors.deep_view() =~= errors_before.push(
                (view.name, "duplicate module name"@),
            ));
        } else {
            kept.push(decl);
            assert(kept.deep_view() =~= kept_before.push(view));
        }
    }
    assert(given.take(given.len() as int) =~= given);
    let ghost all = kept.deep_view();
    let ghost dup = errors.deep_view();
    let mut i: usize = 0;
    assert(dup + lacking(all, 0) =~= dup);
    while i < kept.len()
        invariant
            i <= kept.len(),
            all == kept.deep_view(),
            errors.deep_view() == dup + lacking(all, i as int),
        decreases kept.len() - i,
    {
        let ghost before = errors.deep_view();
        assert(all[i as int] == kept@[i as int].deep_view());
        let gone = absent_names(&kept, &kept[i].after);
        assert(gone.deep_view().len() == gone@.len());
        if gone.len() > 0 {
            let message = text::concat(
                "missing dependency: ",
                text::join_with(&gone, ", ").as_str(),
            );
            let ghost told = (all[i as int].name, message@);
            errors.push((kept[i].name.clone(), message));
            assert(errors.deep_view() =~= before.push(told));
            assert(dup + lacking(all, i as int).push(told) =~= (dup + lacking(all, i as int)).push(
                told,
            ));
        }
        i += 1;
    }
    let ghost lack = errors.deep_view();
    let mut ordered: Vec<ModuleDecl> = Vec::new();
    assert(ordered.deep_view() =~= Seq::empty());
    loop
        invariant
            all == kept.deep_view(),
            forall|k: int|
                0 <= k < ordered.deep_view().len() ==> next_choice(
                    all,
                    ordered.deep_view().take(k),
                    #[trigger] ordered.deep_view()[k],
                ),
        ensures
            is_load_order(all, ordered.deep_view()),
        decreases unplaced(all, ordered.deep_view(), all.len() as int),
    {
        let ghost before = ordered.deep_view();
        match choose_next(&kept, &ordered) {
            None => {
                break;
            },
            Some(b) => {
                let d = kept[b].duplicate();
                let ghost view = d.deep_view();
                assert(all[b as int] == view);
                ordered.push(d);
                proof {
                    let after = ordered.deep_view();
                    assert(after =~= before.push(view));
                    lemma_unplaced_shrinks(all, before, view, all.len() as int);
                    assert forall|k: int| 0 <= k < after.len() implies next_choice(
                        all,
                        after.take(k),
                        #[trigger] after[k],
                    ) by {
                        if k < before.len() {
                            assert(after.take(k) =~= before.take(k));
                            assert(after[k] == before[k]);
                        } else {
                            assert(after.take(k) =~= before);
                        }
                    }
                }
            },
        }
    }
    let ghost order = ordered.deep_view();
    let mut m: usize = 0;
    assert(lack + stuck(all, order, 0) =~= lack);
    while m < kept.len()
        invariant
            m <= kept.len(),
            all == kept.deep_view(),
            order == ordered.deep_view(),
            errors.deep_view() == lack + stuck(all, order, m as int),
        decreases kept.len() - m,
    {
        let ghost before = errors.deep_view();
        assert(all[m as int] == kept@[m as int].deep_view());
        let gone = absent_names(&kept, &kept[m].after);
        assert(gone.deep_view().len() == gone@.len());
        if gone.len() == 0 && !is_known(&ordered, kept[m].name.as_str()) {
            let ghost told = (all[m as int].name, "circular dependency"@);
            errors.push((kept[m].name.clone(), "circular dependency".to_owned()));
            assert(errors.deep_view() =~= before.push(told));
            assert(lack + stuck(all, order, m as int).push(told) =~= (lack + stuck(
                all,
                order,
                m as int,
            )).push(told));
        }
        m += 1;
    }
    (ordered, errors)
}

/// Every module is loaded after all the modules that it names.
pub proof fn law_dependencies_load_first(
    decls: Seq<DeclView>,
    ordered: Seq<DeclView>,
    k: int,
    j: int,
)
    requires
        is_load_order(decls, ordered),
        0 <= k < ordered.len(),
        0 <= j < ordered[k].after.len(),
    ensures
        exists|i: int| 0 <= i < k && (#[trigger] ordered[i]).name == ordered[k].after[j],
{
    let placed = ordered.take(k);
    assert(next_choice(decls, placed, ordered[k]));
    assert(known(placed, ordered[k].after[j]));
    let i = choose|i: int| 0 <= i < placed.len() && (#[trigger] placed[i]).name
        == ordered[k].after[j];
    assert(ordered[i].name == ordered[k].after[j]);
}

/// No module is loaded twice.
pub proof fn law_each_module_loads_once(
    decls: Seq<DeclView>,
    ordered: Seq<DeclView>,
    i: int,
    k: int,
)
    requires
        is_load_order(decls, ordered),
        0 <= i < k < ordered.len(),
    ensures
        ordered[i].name != ordered[k].name,
{
    let placed = ordered.take(k);
    assert(next_choice(decls, placed, ordered[k]));
    assert(placed[i] == ordered[i]);
}

/// No two declarations share a name.
pub open spec fn unique_modules(decls: Seq<DeclView>) -> bool {
    forall|i: int, j: int|
        0 <= i < j < decls.len() ==> (#[trigger] decls[i]).name != (#[trigger] decls[j]).name
}

/// Of declarations with one name only the first is kept.
pub proof fn law_firsts_are_unique(decls: Seq<DeclView>)
    ensures
        unique_modules(firsts(decls)),
        forall|i: int|
            0 <= i < decls.len() ==> known(firsts(decls), (#[trigger] decls[i]).name),
        forall|i: int| 0 <= i < firsts(decls).len() ==> decls.contains(#[trigger] firsts(decls)[i]),
    decreases decls.len(),
{
    if decls.len() > 0 {
        let rest = decls.drop_last();
        law_firsts_are_unique(rest);
        let before = firsts(rest);
        let after = firsts(decls);
        lemma_known_push(before, decls.last(), decls.last().name);
        assert forall|i: int| 0 <= i < decls.len() implies known(
            after,
            (#[trigger] decls[i]).name,
        ) by {
            if i < rest.len() {
                assert(rest[i] == decls[i]);
                lemma_known_push(before, decls.last(), decls[i].name);
            }
        }
        assert forall|i: int| 0 <= i < after.len() implies decls.contains(#[trigger] after[i]) by {
            if i < before.len() {
                assert(after[i] == before[i]);
                let k = choose|k: int| 0 <= k < rest.len() && rest[k] == before[i];
                assert(decls[k] == after[i]);
            } else {
                assert(decls[decls.len() - 1] == after[i]);
            }
        }
        assert forall|i: int, j: int| 0 <= i < j < after.len() implies (#[trigger] after[i]).name
            != (#[trigger] after[j]).name by {
            if j == before.len() {
                assert(before[i] == after[i]);
                assert(!known(before, decls.last().name));
            } else {
                assert(before[i] == after[i]);
                assert(before[j] == after[j]);
            }
        }
    }
}

/// The modules fix the order in which they are loaded.
pub proof fn law_load_order_is_unique(decls: Seq<DeclView>, a: Seq<DeclView>, b: Seq<DeclView>)
    requires
        unique_modules(decls),
        is_load_order(decls, a),
        is_load_order(decls, b),
    ensures
        a == b,
{
    lemma_orders_agree(decls, a, b, if a.len() < b.len() {
        a.len() as int
    } else {
        b.len() as int
    });
    if a.len() < b.len() {
        assert(a =~= b.take(a.len() as int));
        assert(next_choice(decls, a, b[a.len() as int]));
        let i = choose|i: int| 0 <= i < decls.len() && decls[i] == b[a.len() as int];
        assert(!ready(a, decls[i]));
    } else if b.len() < a.len() {
        assert(b =~= a.take(b.len() as int));
        assert(next_choice(decls, b, a[b.len() as int]));
        let i = choose|i: int| 0 <= i < decls.len() && decls[i] == a[b.len() as int];
        assert(!ready(b, decls[i]));
    } else {
        assert(a =~= a.take(a.len() as int));
        assert(b =~= b.take(b.len() as int));
    }
}

proof fn lemma_orders_agree(decls: Seq<DeclView>, a: Seq<DeclView>, b: Seq<DeclView>, n: int)
    requires
        unique_modules(decls),
        is_load_order(decls, a),
        is_load_order(decls, b),
        0 <= n <= a.len(),
        n <= b.len(),
    ensures
        a.take(n) == b.take(n),
    decreases n,
{
    if n > 0 {
        lemma_orders_agree(decls, a, b, n - 1);
        let placed = a.take(n - 1);
        let x = a[n - 1];
        let y = b[n - 1];
        assert(next_choice(decls, a.take(n - 1), x));
        assert(next_choice(decls, b.take(n - 1), y));
        let i = choose|i: int| 0 <= i < decls.len() && decls[i] == x;
        let j = choose|j: int| 0 <= j < decls.len() && decls[j] == y;
        assert(ready(placed, decls[i]) && ready(placed, decls[j]));
        text::lemma_precedes_total(x.name, y.name);
        assert(x.name == y.name);
        assert(i == j) by {
            if i < j {
                assert(decls[i].name != decls[j].name);
            } else if j < i {
                assert(decls[j].name != decls[i].name);
            }
        }
        assert(a.take(n) =~= a.take(n - 1).push(x));
        assert(b.take(n) =~= b.take(n - 1).push(y));
    } else {
        assert(a.take(0) =~= b.take(0));
    }
}

/// A module of that name is complained about.
pub open spec fn complained(errors: Seq<(Seq<char>, Seq<char>)>, name: Seq<char>) -> bool {
    exists|i: int| 0 <= i < errors.len() && (#[trigger] errors[i]).0 == name
}

proof fn lemma_complaint_kept(
    errors: Seq<(Seq<char>, Seq<char>)>,
    more: (Seq<char>, Seq<char>),
    name: Seq<char>,
)
    ensures
        complained(errors, name) ==> complained(errors.push(more), name),
        complained(errors.push(more), more.0),
{
    let after = errors.push(more);
    assert(after[errors.len() as int].0 == more.0);
    if complained(errors, name) {
        let i = choose|i: int| 0 <= i < errors.len() && (#[trigger] errors[i]).0 == name;
        assert(after[i].0 == name);
    }
}

proof fn lemma_unplaced_told(decls: Seq<DeclView>, ordered: Seq<DeclView>, i: int, n: int)
    requires
        0 <= i < n <= decls.len(),
        !known(ordered, decls[i].name),
    ensures
        complained(lacking(decls, n), decls[i].name) || complained(
            stuck(decls, ordered, n),
            decls[i].name,
        ),
    decreases n,
{
    let gone = absent(decls, decls[n - 1].after);
    let about_lack = (
        decls[n - 1].name,
        "missing dependency: "@ + text::join(gone, ", "@),
    );
    let about_stuck = (decls[n - 1].name, "circular dependency"@);
    lemma_complaint_kept(lacking(decls, n - 1), about_lack, decls[i].name);
    lemma_complaint_kept(stuck(decls, ordered, n - 1), about_stuck, decls[i].name);
    if i < n - 1 {
        lemma_unplaced_told(decls, ordered, i, n - 1);
    }
}

/// Every module that is not loaded is complained about.
pub proof fn law_no_module_is_forgotten(decls: Seq<DeclView>, ordered: Seq<DeclView>, i: int)
    requires
        0 <= i < decls.len(),
    ensures
        known(ordered, decls[i].name) || complained(
            lacking(decls, decls.len() as int),
            decls[i].name,
        ) || complained(stuck(decls, ordered, decls.len() as int), decls[i].name),
{
    if !known(ordered, decls[i].name) {
        lemma_unplaced_told(decls, ordered, i, decls.len() as int);
    }
}

/// The name of the module in the file at `path` below `root`.
pub open spec fn path_name(root: Seq<char>, path: Seq<char>) -> Seq<char> {
    let dotted = text::replaced(
        paths::without_extension(paths::relative_to(path, root)),
        '/',
        '.',
    );
    if dotted.len() > 0 && dotted[0] == '.' {
        dotted.subrange(1, dotted.len() as int)
    } else {
        dotted
    }
}

/// The name of the module in the file at `path`: its path below the modules'
/// directory without the extension, with dots between the components.
pub fn module_name_from_path(module_root: &str, path: &str) -> (r: String)
    ensures
        r@ == path_name(module_root@, path@),
{
    let rel = paths::strip_root(path, module_root);
    let bare = paths::drop_extension(rel.as_str());
    let dotted = text::replace_char(bare.as_str(), '/', '.');
    let v = text::chars_of(dotted.as_str());
    if v.len() > 0 && v[0] == '.' {
        text::slice(&v, 1, v.len())
    } else {
        dotted
    }
}

/// The file is for other modules to use, and no module itself.
pub open spec fn is_library(root: Seq<char>, path: Seq<char>) -> bool {
    let parts = paths::components(paths::relative_to(path, root));
    parts.len() > 0 && parts[0] == "lib"@
}

/// Whether the file at `path` lies in the directory of library files.
pub fn is_lib_path(module_root: &str, path: &str) -> (r: bool)
    ensures
        r == is_library(module_root@, path@),
{
    let rel = paths::strip_root(path, module_root);
    match paths::first_component(rel.as_str()) {
        Some(first) => text::same(first.as_str(), "lib"),
        None => false,
    }
}

/// A module whose name was taken before it is noted as a repetition.
pub proof fn law_repeated_names_are_noted(decls: Seq<DeclView>, i: int, k: int)
    requires
        0 <= i < k < decls.len(),
        decls[i].name == decls[k].name,
    ensures
        repeats(decls).contains((decls[k].name, "duplicate module name"@)),
        firsts(decls).len() < decls.len(),
    decreases decls.len(),
{
    let rest = decls.drop_last();
    let before = repeats(rest);
    lemma_firsts_are_few(rest);
    if k < rest.len() {
        assert(rest[i] == decls[i] && rest[k] == decls[k]);
        law_repeated_names_are_noted(rest, i, k);
        let m = choose|m: int| 0 <= m < before.len()
            && before[m] == (decls[k].name, "duplicate module name"@);
        assert(repeats(decls)[m] == before[m]);
    } else {
        law_firsts_are_unique(rest);
        assert(rest[i] == decls[i]);
        assert(known(firsts(rest), rest[i].name));
        assert(repeats(decls)[before.len() as int] == (decls[k].name, "duplicate module name"@));
    }
}

proof fn lemma_firsts_are_few(decls: Seq<DeclView>)
    ensures
        firsts(decls).len() <= decls.len(),
        firsts(decls).len() + repeats(decls).len() == decls.len(),
    decreases decls.len(),
{
    if decls.len() > 0 {
        lemma_firsts_are_few(decls.drop_last());
    }
}

/// The first module of each name is kept, as it was declared.
pub proof fn law_first_of_a_name_is_kept(decls: Seq<DeclView>, i: int)
    requires
        0 <= i < decls.len(),
        forall|k: int| 0 <= k < i ==> (#[trigger] decls[k]).name != decls[i].name,
    ensures
        firsts(decls).contains(decls[i]),
    decreases decls.len(),
{
    let rest = decls.drop_last();
    let before = firsts(rest);
    if i < rest.len() {
        assert forall|k: int| 0 <= k < i implies (#[trigger] rest[k]).name != rest[i].name by {
            assert(decls[k].name != decls[i].name);
        }
        law_first_of_a_name_is_kept(rest, i);
        let m = choose|m: int| 0 <= m < before.len() && before[m] == decls[i];
        assert(firsts(decls)[m] == decls[i]);
    } else {
        law_firsts_are_unique(rest);
        if known(before, decls[i].name) {
            let m = choose|m: int| 0 <= m < before.len()
                && (#[trigger] before[m]).name == decls[i].name;
            assert(rest.contains(before[m]));
            let n = choose|n: int| 0 <= n < rest.len() && rest[n] == before[m];
            assert(decls[n].name == decls[i].name);
            assert(false);
        }
        assert(firsts(decls)[before.len() as int] == decls[i]);
    }
}

/// The names that a list asks for and no module has are those that are absent.
pub proof fn law_absent_names_are_those_no_module_has(decls: Seq<DeclView>,
    wanted: Seq<Seq<char>>, name: Seq<char>)
    ensures
        absent(decls, wanted).contains(name) <==> wanted.contains(name) && !known(decls, name),
    decreases wanted.len(),
{
    if wanted.len() > 0 {
        let rest = wanted.drop_last();
        let before = absent(decls, rest);
        let all = absent(decls, wanted);
        law_absent_names_are_those_no_module_has(decls, rest, name);
        if before.contains(name) {
            let k = choose|k: int| 0 <= k < before.len() && before[k] == name;
            assert(all[k] == name);
            let m = choose|m: int| 0 <= m < rest.len() && rest[m] == name;
            assert(wanted[m] == name);
        }
        if wanted.contains(name) && !rest.contains(name) {
            let m = choose|m: int| 0 <= m < wanted.len() && wanted[m] == name;
            if m < rest.len() {
                assert(rest[m] == name);
            }
            assert(wanted.last() == name);
            if !known(decls, name) {
                assert(all[before.len() as int] == name);
            }
        }
        if all.contains(name) && !before.contains(name) {
            let k = choose|k: int| 0 <= k < all.len() && all[k] == name;
            if k < before.len() {
                assert(before[k] == name);
            }
            assert(wanted[wanted.len() - 1] == name);
        }
    }
}

/// A module that waits for one that does not exist is noted with the name of the one
/// that is missing, and is not loaded.
pub proof fn law_missing_modules_are_named(
    decls: Seq<DeclView>,
    ordered: Seq<DeclView>,
    i: int,
    dep: Seq<char>,
)
    requires
        0 <= i < decls.len(),
        decls[i].after == seq![dep],
        !known(decls, dep),
        is_load_order(decls, ordered),
    ensures
        lacking(decls, decls.len() as int).contains((decls[i].name,
            "missing dependency: "@ + dep)),
        !ordered.contains(decls[i]),
{
    reveal_with_fuel(absent, 2);
    let after = decls[i].after;
    assert(after.drop_last() =~= Seq::empty());
    assert(after.last() == dep);
    assert(absent(decls, after) =~= seq![dep]);
    assert(text::join(seq![dep], ", "@) == dep);
    lemma_lack_is_noted(decls, decls.len() as int, i);
    if ordered.contains(decls[i]) {
        let k = choose|k: int| 0 <= k < ordered.len() && ordered[k] == decls[i];
        law_dependencies_load_first(decls, ordered, k, 0);
        let j = choose|j: int| 0 <= j < k && (#[trigger] ordered[j]).name == dep;
        assert(next_choice(decls, ordered.take(j), ordered[j]));
        let m = choose|m: int| 0 <= m < decls.len() && decls[m] == ordered[j];
        assert(decls[m].name == dep);
        assert(false);
    }
}

proof fn lemma_lack_is_noted(decls: Seq<DeclView>, n: int, i: int)
    requires
        0 <= i < n <= decls.len(),
        absent(decls, decls[i].after).len() > 0,
    ensures
        lacking(decls, n).contains(
            (decls[i].name, "missing dependency: "@ + text::join(absent(decls, decls[i].after),
                ", "@)),
        ),
    decreases n,
{
    let note = (decls[i].name, "missing dependency: "@ + text::join(absent(decls, decls[i].after),
        ", "@));
    let before = lacking(decls, n - 1);
    if i < n - 1 {
        lemma_lack_is_noted(decls, n - 1, i);
        let k = choose|k: int| 0 <= k < before.len() && before[k] == note;
        assert(lacking(decls, n)[k] == note);
    } else {
        assert(lacking(decls, n)[before.len() as int] == note);
    }
}

/// A module whose dependencies all exist and that is nonetheless not loaded waits in a
/// circle, and is noted so; one that is loaded is not.
pub proof fn law_circles_are_noted(decls: Seq<DeclView>, ordered: Seq<DeclView>, n: int, i: int)
    requires
        0 <= i < n <= decls.len(),
        absent(decls, decls[i].after).len() == 0,
    ensures
        !known(ordered, decls[i].name) ==>
            stuck(decls, ordered, n).contains((decls[i].name, "circular dependency"@)),
        known(ordered, decls[i].name) ==> !complained(stuck(decls, ordered, n), decls[i].name),
    decreases n,
{
    let before = stuck(decls, ordered, n - 1);
    let note = (decls[i].name, "circular dependency"@);
    if !known(ordered, decls[i].name) {
        if i < n - 1 {
            law_circles_are_noted(decls, ordered, n - 1, i);
            let k = choose|k: int| 0 <= k < before.len() && before[k] == note;
            assert(stuck(decls, ordered, n)[k] == note);
        } else {
            assert(stuck(decls, ordered, n)[before.len() as int] == note);
        }
    } else {
        lemma_placed_are_not_stuck(decls, ordered, n, decls[i].name);
    }
}

proof fn lemma_placed_are_not_stuck(decls: Seq<DeclView>, ordered: Seq<DeclView>, n: int,
    name: Seq<char>)
    requires
        n <= decls.len(),
        known(ordered, name),
    ensures
        !complained(stuck(decls, ordered, n), name),
    decreases n,
{
    if n > 0 {
        lemma_placed_are_not_stuck(decls, ordered, n - 1, name);
        let before = stuck(decls, ordered, n - 1);
        let all = stuck(decls, ordered, n);
        if complained(all, name) {
            let k = choose|k: int| 0 <= k < all.len() && (#[trigger] all[k]).0 == name;
            if k < before.len() {
                assert(before[k].0 == name);
            }
        }
    }
}

/// The module of a file in the directory of modules goes by the file's name, without its
/// extension.
pub proof fn law_modules_go_by_their_files(root: Seq<char>, name: Seq<char>)
    requires
        root.len() > 0,
        root.last() != '/',
        name.len() > 0,
        name[0] != '.',
        !name.contains('/'),
    ensures
        path_name(root, paths::joined(root, name + ".lua"@)) == name,
{
    lemma_lua_name(name);
    let file = name + "."@ + "lua"@;
    paths::law_join_adds_a_component(root, file);
    paths::law_plain_name_is_one_component(name, "lua"@);
    assert forall|i: int| 0 <= i < name.len() implies text::replaced(name, '/', '.')[i]
        == name[i] by {
        assert(name.contains(name[i]));
    }
    assert(text::replaced(name, '/', '.') =~= name);
}

proof fn lemma_lua_name(name: Seq<char>)
    requires
        name.len() > 0,
        !name.contains('/'),
    ensures
        name + ".lua"@ == name + "."@ + "lua"@,
        !(name + ".lua"@).contains('/'),
        (name + ".lua"@) != "."@,
        !"lua"@.contains('/'),
        !"lua"@.contains('.'),
        "lua"@.len() == 3,
{
    reveal_strlit(".");
    reveal_strlit("lua");
    reveal_strlit(".lua");
    assert(".lua"@ =~= "."@ + "lua"@);
    let file = name + ".lua"@;
    assert(file =~= name + "."@ + "lua"@);
    assert("."@.len() == 1);
    assert(file.len() >= 5);
    if file.contains('/') {
        let k = choose|k: int| 0 <= k < file.len() && file[k] == '/';
        if k < name.len() {
            assert(name.contains(name[k]));
        } else {
            assert(file[k] == ".lua"@[k - name.len()]);
        }
    }
}

/// Files in the directory `lib` are libraries; files beside it are not.
pub proof fn law_libraries_stand_in_their_directory(root: Seq<char>, name: Seq<char>)
    requires
        root.len() > 0,
        root.last() != '/',
        name.len() > 0,
        !name.contains('/'),
        name != "."@,
    ensures
        is_library(root, paths::joined(root, name)) <==> name == "lib"@,
{
    paths::law_join_adds_a_component(root, name);
    text::lemma_index_from(name, '/', 0);
    let k = text::index_from(name, '/', 0);
    if k < name.len() {
        assert(name.contains(name[k]));
    }
    assert(name.subrange(0, name.len() as int) =~= name);
    assert(name[0] != '/') by {
        assert(name.contains(name[0]));
    }
    assert(paths::spans(name) =~= seq![(0int, name.len() as int)]);
    assert(paths::components(name) =~= seq![name]);
}

/// The module of a file in a directory of its own goes by the names of both, with a dot
/// between them.
pub proof fn law_directories_are_part_of_the_name(
    root: Seq<char>,
    dir: Seq<char>,
    name: Seq<char>,
)
    requires
        root.len() > 0,
        root.last() != '/',
        dir.len() > 0,
        dir[0] != '.',
        !dir.contains('/'),
        name.len() > 0,
        !name.contains('/'),
    ensures
        path_name(root, paths::joined(paths::joined(root, dir), name + ".lua"@))
            == dir + "."@ + name,
{
    lemma_lua_name(name);
    reveal_strlit(".");
    reveal_strlit("/");
    assert("/"@ =~= seq!['/'] && "."@ =~= seq!['.']);
    let file = name + ".lua"@;
    let inner = paths::joined(root, dir);
    let whole = paths::joined(inner, file);
    assert(dir != "."@) by {
        assert("."@[0] == '.');
    }
    paths::law_join_adds_a_component(root, dir);
    assert(inner.last() == dir.last());
    assert(dir.contains(dir.last()));
    paths::law_join_adds_a_component(inner, file);
    let k = paths::components(root).len() as int;
    assert(paths::components(whole).take(k) =~= paths::components(root));
    assert(paths::spans(whole)[k] == (root.len() as int + 1, inner.len() as int));
    assert(paths::spans(whole).last().1 == whole.len());
    let rel = paths::relative_to(whole, root);
    assert(rel =~= dir + "/"@ + file);
    assert(rel == paths::joined(dir, file));
    paths::law_extension_follows_the_last_dot(dir, name, "lua"@);
    let stem = dir + "/"@ + name;
    assert(paths::without_extension(rel) == stem) by {
        assert(name[0] != '/') by {
            assert(name.contains(name[0]));
        }
        assert(paths::joined(dir, name) == stem);
    }
    let dotted = text::replaced(stem, '/', '.');
    assert forall|i: int| 0 <= i < stem.len() implies dotted[i] == (dir + "."@ + name)[i] by {
        if i < dir.len() {
            assert(dir.contains(dir[i]));
        } else if i > dir.len() {
            assert(name.contains(name[i - dir.len() - 1]));
        }
    }
    assert(dotted =~= dir + "."@ + name);
    assert(dotted[0] == dir[0]);
}

} // verus!
