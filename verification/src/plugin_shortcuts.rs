//! Which keyboard shortcut each plugin command gets: its declared default,
//! unless the user rebound or unbound it, and never a default that a built-in
//! binding or an earlier plugin already holds.

use vstd::prelude::*;

verus! {

/// A key combination: the modifier keys held (one bit each) and the key.
#[derive(Debug, Clone, Copy, PartialEq, Eq, Structural)]
pub struct KeyboardShortcut {
    pub modifiers: u8,
    pub key: u32,
}

/// The user's choice for one plugin command.
#[derive(Debug, Clone, Copy, PartialEq, Eq, Structural)]
pub enum PluginShortcutOverride {
    /// No shortcut at all.
    Unbound,
    /// Exactly this shortcut, whether or not something else uses it.
    Bound(KeyboardShortcut),
}

/// The user's choice for `name`: that of the first override naming it.
pub open spec fn override_for(overrides: Seq<(Seq<char>, PluginShortcutOverride)>, name: Seq<char>) -> Option<
    PluginShortcutOverride,
>
    decreases overrides.len(),
{
    if overrides.len() == 0 {
        None
    } else if overrides[0].0 == name {
        Some(overrides[0].1)
    } else {
        override_for(overrides.drop_first(), name)
    }
}

/// The shortcuts taken so far and the plugin shortcuts assigned so far.
pub struct Assignment {
    pub taken: Set<KeyboardShortcut>,
    pub effective: Seq<(Seq<char>, KeyboardShortcut)>,
}

/// Assigning plugin command `name`, whose declared default is `default`.
pub open spec fn assign_one(
    a: Assignment,
    name: Seq<char>,
    default: KeyboardShortcut,
    overrides: Seq<(Seq<char>, PluginShortcutOverride)>,
) -> Assignment {
    match override_for(overrides, name) {
        Some(PluginShortcutOverride::Unbound) => a,
        Some(PluginShortcutOverride::Bound(s)) => Assignment {
            taken: a.taken.insert(s),
            effective: a.effective.push((name, s)),
        },
        None => if a.taken.contains(default) {
            a
        } else {
            Assignment { taken: a.taken.insert(default), effective: a.effective.push((name, default)) }
        },
    }
}

/// Assigning the first `n` plugin commands of `defaults`, in order, starting
/// from the built-in bindings.
pub open spec fn assign_upto(
    builtin: Set<KeyboardShortcut>,
    defaults: Seq<(Seq<char>, KeyboardShortcut)>,
    overrides: Seq<(Seq<char>, PluginShortcutOverride)>,
    n: int,
) -> Assignment
    decreases n,
{
    if n <= 0 {
        Assignment { taken: builtin, effective: Seq::empty() }
    } else {
        assign_one(
            assign_upto(builtin, defaults, overrides, n - 1),
            defaults[n - 1].0,
            defaults[n - 1].1,
            overrides,
        )
    }
}

/// The texts of a list of (name, value) pairs.
pub open spec fn named<T>(s: Seq<(String, T)>) -> Seq<(Seq<char>, T)> {
    s.map_values(|p: (String, T)| (p.0@, p.1))
}

/// The user's choice for `name` among `overrides`.
fn find_override(overrides: &Vec<(String, PluginShortcutOverride)>, name: &String) -> (o: Option<
    PluginShortcutOverride,
>)
    ensures
        o == override_for(named(overrides@), name@),
{
    let ghost all = named(overrides@);
    let mut i: usize = 0;
    assert(all.skip(0) =~= all);
    while i < overrides.len()
        invariant
            i <= overrides@.len(),
            all == named(overrides@),
            override_for(all, name@) == override_for(all.skip(i as int), name@),
        decreases overrides@.len() - i,
    {
        assert(all.skip(i as int)[0] == all[i as int]);
        if overrides[i].0 == *name {
            return Some(overrides[i].1);
        }
        assert(all.skip(i as int).drop_first() =~= all.skip(i + 1));
        i = i + 1;
    }
    assert(all.skip(i as int).len() == 0);
    None
}

/// Whether `s` occurs in `list`.
fn contains_shortcut(list: &Vec<KeyboardShortcut>, s: KeyboardShortcut) -> (found: bool)
    ensures
        found == list@.contains(s),
{
    let mut i: usize = 0;
    while i < list.len()
        invariant
            i <= list@.len(),
            forall|j: int| 0 <= j < i ==> list@[j] != s,
        decreases list@.len() - i,
    {
        if list[i] == s {
            return true;
        }
        i = i + 1;
    }
    false
}

/// Every plugin command's effective shortcut, in the order of `defaults`:
/// an `Unbound` override drops the command, a `Bound` one gives it exactly
/// that shortcut, and otherwise it gets its default unless a built-in binding
/// or an earlier plugin command already holds it.
pub fn effective_plugin_shortcuts(
    builtin: &Vec<KeyboardShortcut>,
    defaults: &Vec<(String, KeyboardShortcut)>,
    overrides: &Vec<(String, PluginShortcutOverride)>,
) -> (effective: Vec<(String, KeyboardShortcut)>)
    ensures
        named(effective@) == assign_upto(
            builtin@.to_set(),
            named(defaults@),
            named(overrides@),
            defaults@.len() as int,
        ).effective,
{
    let mut taken: Vec<KeyboardShortcut> = Vec::new();
    let mut b: usize = 0;
    while b < builtin.len()
        invariant
            b <= builtin@.len(),
            taken@ == builtin@.take(b as int),
        decreases builtin@.len() - b,
    {
        taken.push(builtin[b]);
        assert(taken@ =~= builtin@.take(b + 1));
        b = b + 1;
    }
    assert(builtin@.take(b as int) =~= builtin@);
    let ghost bset = builtin@.to_set();
    let ghost ds = named(defaults@);
    let ghost ov = named(overrides@);
    let mut effective: Vec<(String, KeyboardShortcut)> = Vec::new();
    let mut i: usize = 0;
    while i < defaults.len()
        invariant
            i <= defaults@.len(),
            ds == named(defaults@),
            ov == named(overrides@),
            bset == builtin@.to_set(),
            taken@.to_set() == assign_upto(bset, ds, ov, i as int).taken,
            named(effective@) == assign_upto(bset, ds, ov, i as int).effective,
        decreases defaults@.len() - i,
    {
        let ghost before = assign_upto(bset, ds, ov, i as int);
        let ghost old_taken = taken@;
        let ghost old_eff = named(effective@);
        let name = &defaults[i].0;
        let default_shortcut = defaults[i].1;
        assert(ds[i as int] == (name@, default_shortcut));
        match find_override(overrides, name) {
            Some(PluginShortcutOverride::Unbound) => {},
            Some(PluginShortcutOverride::Bound(shortcut)) => {
                taken.push(shortcut);
                effective.push((name.clone(), shortcut));
                assert(taken@.to_set() =~= old_taken.to_set().insert(shortcut)) by {
                    assert(taken@ == old_taken.push(shortcut));
                    old_taken.lemma_push_to_set_commute(shortcut);
                }
                assert(named(effective@) =~= old_eff.push((name@, shortcut)));
            },
            None => {
                if !contains_shortcut(&taken, default_shortcut) {
                    taken.push(default_shortcut);
                    effective.push((name.clone(), default_shortcut));
                    assert(taken@.to_set() =~= old_taken.to_set().insert(default_shortcut)) by {
                        assert(taken@ == old_taken.push(default_shortcut));
                        old_taken.lemma_push_to_set_commute(default_shortcut);
                    }
                    assert(named(effective@) =~= old_eff.push((name@, default_shortcut)));
                } else {
                    assert(old_taken.to_set().contains(default_shortcut));
                }
            },
        }
        i = i + 1;
    }
    effective
}

/// A plugin command without an override of its own never receives a shortcut
/// that a built-in binding holds, nor one an earlier plugin command got: only
/// an explicit `Bound` override can make two bindings collide.
pub proof fn law_defaults_never_collide(
    builtin: Set<KeyboardShortcut>,
    defaults: Seq<(Seq<char>, KeyboardShortcut)>,
    overrides: Seq<(Seq<char>, PluginShortcutOverride)>,
    n: int,
)
    requires
        0 <= n <= defaults.len(),
    ensures
        ({
            let a = assign_upto(builtin, defaults, overrides, n);
            &&& forall|k: KeyboardShortcut| builtin.contains(k) ==> #[trigger] a.taken.contains(k)
            &&& forall|i: int| 0 <= i < a.effective.len() ==> #[trigger] a.taken.contains(a.effective[i].1)
            &&& forall|i: int|
                0 <= i < a.effective.len() && override_for(overrides, #[trigger] a.effective[i].0)
                    is None ==> !builtin.contains(a.effective[i].1) && forall|j: int|
                    0 <= j < i ==> a.effective[j].1 != a.effective[i].1
            &&& forall|k: KeyboardShortcut|
                #[trigger] a.taken.contains(k) ==> builtin.contains(k) || exists|i: int|
                    0 <= i < a.effective.len() && a.effective[i].1 == k
        }),
    decreases n,
{
    if n > 0 {
        law_defaults_never_collide(builtin, defaults, overrides, n - 1);
        let prev = assign_upto(builtin, defaults, overrides, n - 1);
        let a = assign_upto(builtin, defaults, overrides, n);
        let name = defaults[n - 1].0;
        assert forall|k: KeyboardShortcut| #[trigger] a.taken.contains(k) implies builtin.contains(k)
            || exists|i: int| 0 <= i < a.effective.len() && a.effective[i].1 == k by {
            if !prev.taken.contains(k) {
                assert(a.effective[a.effective.len() - 1].1 == k);
            } else if !builtin.contains(k) {
                let i = choose|i: int| 0 <= i < prev.effective.len() && prev.effective[i].1 == k;
                assert(a.effective[i] == prev.effective[i]);
            }
        }
        assert forall|i: int| 0 <= i < a.effective.len() implies #[trigger] a.taken.contains(
            a.effective[i].1,
        ) by {
            if i < prev.effective.len() {
                assert(a.effective[i] == prev.effective[i]);
                assert(prev.taken.contains(prev.effective[i].1));
            }
        }
        assert forall|i: int|
            0 <= i < a.effective.len() && override_for(overrides, #[trigger] a.effective[i].0)
                is None implies !builtin.contains(a.effective[i].1) && forall|j: int|
            0 <= j < i ==> a.effective[j].1 != a.effective[i].1 by {
            if i < prev.effective.len() {
                assert(a.effective[i] == prev.effective[i]);
                assert forall|j: int| 0 <= j < i implies a.effective[j].1 != a.effective[i].1 by {
                    assert(a.effective[j] == prev.effective[j]);
                }
            } else {
                assert(a.effective[i] == (name, defaults[n - 1].1));
                assert(!prev.taken.contains(defaults[n - 1].1));
                assert forall|j: int| 0 <= j < i implies a.effective[j].1 != a.effective[i].1 by {
                    assert(a.effective[j] == prev.effective[j]);
                    assert(prev.taken.contains(prev.effective[j].1));
                }
            }
        }
    }
}

} // verus!
