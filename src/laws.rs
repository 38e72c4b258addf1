use vstd::prelude::*;

use crate::config::{
    entries_map, entry_map, has_name, lemma_sorted_by_display, name_index, unique_names,
    ProgramEntryView,
};
use crate::dashboard::{
    after_delete, menu, normal_step, wizard_step, ActionView, DashboardView, Key, Mode,
};
use crate::wizard::{advanced, complete};

verus! {

proof fn lemma_down_steps(views: Seq<DashboardView>, actions: Seq<ActionView>, i: int)
    requires
        views.len() >= 1,
        actions.len() == views.len() - 1,
        0 <= i < views.len(),
        menu(views[0]).len() > 0,
        0 <= views[0].selected < menu(views[0]).len(),
        forall|k: int|
            0 <= k < views.len() - 1 ==> normal_step(
                #[trigger] views[k],
                views[k + 1],
                Key::Down,
                actions[k],
            ),
    ensures
        views[i].config == views[0].config,
        views[i].selected == (views[0].selected + i) % (menu(views[0]).len() as int),
    decreases i,
{
    let n = menu(views[0]).len() as int;
    if i == 0 {
        vstd::arithmetic::div_mod::lemma_small_mod(views[0].selected as nat, n as nat);
    } else {
        lemma_down_steps(views, actions, i - 1);
        assert(normal_step(views[i - 1], views[i], Key::Down, actions[i - 1]));
        let s = views[0].selected;
        vstd::arithmetic::div_mod::lemma_add_mod_noop(s + i - 1, 1, n);
        if n > 1 {
            vstd::arithmetic::div_mod::lemma_small_mod(1, n as nat);
        }
    }
}

/// In the menu, pressing "down" as many times as there are rows brings the
/// selection back to where it started.
pub proof fn lemma_down_wraps_around(views: Seq<DashboardView>, actions: Seq<ActionView>)
    requires
        menu(views[0]).len() > 0,
        views.len() == menu(views[0]).len() + 1,
        actions.len() == menu(views[0]).len(),
        0 <= views[0].selected < menu(views[0]).len(),
        forall|k: int|
            0 <= k < views.len() - 1 ==> normal_step(
                #[trigger] views[k],
                views[k + 1],
                Key::Down,
                actions[k],
            ),
    ensures
        views.last().selected == views[0].selected,
        views.last().config == views[0].config,
{
    let n = menu(views[0]).len() as int;
    lemma_down_steps(views, actions, n);
    vstd::arithmetic::div_mod::lemma_add_mod_noop(views[0].selected, n, n);
    vstd::arithmetic::div_mod::lemma_mod_self_0(n);
    vstd::arithmetic::div_mod::lemma_small_mod(views[0].selected as nat, n as nat);
}

/// Deleting the selected row when it is the last one moves the selection to
/// the new last row, or leaves it at 0 when no row is left.
pub proof fn lemma_delete_last_clamps(v: DashboardView)
    requires
        unique_names(v.config),
        menu(v).len() > 0,
        v.selected == menu(v).len() - 1,
    ensures
        menu(after_delete(v)).len() == menu(v).len() - 1,
        after_delete(v).selected == if menu(v).len() > 1 {
            menu(v).len() - 2
        } else {
            0
        },
{
    lemma_sorted_by_display(v.config);
    let m = menu(v);
    let x = m[v.selected];
    assert(v.config.contains(x));
    let j = choose|j: int| 0 <= j < v.config.len() && v.config[j] == x;
    assert(has_name(v.config, x.name));
    lemma_sorted_by_display(after_delete(v).config);
}

/// Enter at the last editable step moves to the review step exactly when
/// the name, display name and command are all filled in; otherwise the
/// wizard stays where it is.
pub proof fn lemma_wizard_gate(v0: DashboardView, v1: DashboardView, r: ActionView)
    requires
        v0.form.step == 6,
        wizard_step(v0, v1, Key::Enter, r),
    ensures
        !complete(v0.form) ==> v1 == v0 && r == ActionView::Continue,
        complete(v0.form) ==> advanced(v0.form).step == 7 && v1.mode == Mode::Normal,
        advanced(v0.form).step == if complete(v0.form) {
            7int
        } else {
            6int
        },
{
    if !complete(v0.form) {
        assert(advanced(v0.form) == v0.form);
        assert(v1 == v0);
    }
}

proof fn lemma_entries_map(t: Seq<ProgramEntryView>)
    ensures
        forall|k: Seq<char>| #[trigger] entries_map(t).contains_key(k) <==> has_name(t, k),
        forall|k: Seq<char>|
            #[trigger] entries_map(t).contains_key(k) ==> t.contains(entries_map(t)[k])
                && entries_map(t)[k].name == k,
    decreases t.len(),
{
    if t.len() > 0 {
        let u = t.drop_last();
        lemma_entries_map(u);
        assert forall|k: Seq<char>| #[trigger] entries_map(t).contains_key(k) <==> has_name(t, k) by {
            if has_name(t, k) && k != t.last().name {
                let i = choose|i: int| 0 <= i < t.len() && t[i].name == k;
                assert(i != t.len() - 1);
                assert(u[i].name == k);
            }
            if has_name(u, k) {
                let i = choose|i: int| 0 <= i < u.len() && u[i].name == k;
                assert(t[i].name == k);
            }
            if k == t.last().name {
                assert(t[t.len() - 1].name == k);
            }
        }
        assert forall|k: Seq<char>| #[trigger] entries_map(t).contains_key(k) implies t.contains(
            entries_map(t)[k],
        ) && entries_map(t)[k].name == k by {
            if k == t.last().name {
                assert(t[t.len() - 1] == entries_map(t)[k]);
            } else {
                let x = entries_map(u)[k];
                let i = choose|i: int| 0 <= i < u.len() && u[i] == x;
                assert(t[i] == x);
            }
        }
    }
}

/// Storing a store's entries again, in any order and starting from an
/// empty store, gives back the same entries under the same names.
pub proof fn lemma_reload_keeps_entries(s: Seq<ProgramEntryView>, t: Seq<ProgramEntryView>)
    requires
        unique_names(s),
        forall|x: ProgramEntryView|
            #![trigger s.contains(x)]
            #![trigger t.contains(x)]
            s.contains(x) <==> t.contains(x),
    ensures
        entries_map(t) == entry_map(s),
{
    lemma_entries_map(t);
    assert forall|k: Seq<char>| #[trigger] entries_map(t).contains_key(k) <==> has_name(s, k) by {
        if has_name(t, k) {
            let i = choose|i: int| 0 <= i < t.len() && t[i].name == k;
            assert(t.contains(t[i]));
            let j = choose|j: int| 0 <= j < s.len() && s[j] == t[i];
            assert(s[j].name == k);
        }
        if has_name(s, k) {
            let i = choose|i: int| 0 <= i < s.len() && s[i].name == k;
            assert(s.contains(s[i]));
            let j = choose|j: int| 0 <= j < t.len() && t[j] == s[i];
            assert(t[j].name == k);
        }
    }
    assert forall|k: Seq<char>| #[trigger] entries_map(t).contains_key(k) implies entries_map(t)[k]
        == s[name_index(s, k)] by {
        let x = entries_map(t)[k];
        assert(s.contains(x));
        let j = choose|j: int| 0 <= j < s.len() && s[j] == x;
        let m = name_index(s, k);
        assert(s[m].name == k);
    }
    assert(entries_map(t) =~= entry_map(s));
}

} // verus!
