use vstd::prelude::*;

verus! {

/// The position selected by cycling from `position` among `n` tabs; none
/// when there is at most one tab.
pub open spec fn cycled(n: nat, position: nat, forward: bool) -> Option<nat> {
    if n <= 1 {
        None
    } else if forward {
        Some((position + 1) % n)
    } else {
        Some(((position + n - 1) as nat) % n)
    }
}

/// The tab that Ctrl+Tab (forward) or Ctrl+Shift+Tab selects, from the
/// selected tab at `position` among `n_pages` tabs, wrapping around.
pub fn cycle_target(n_pages: u32, position: u32, forward: bool) -> (target: Option<u32>)
    requires
        position < n_pages,
    ensures
        match target {
            Some(t) => cycled(n_pages as nat, position as nat, forward) == Some(t as nat),
            None => cycled(n_pages as nat, position as nat, forward) is None,
        },
        n_pages <= 1 <==> target is None,
        n_pages > 1 && forward ==> target == Some(
            if position + 1 == n_pages {
                0
            } else {
                (position + 1) as u32
            },
        ),
        n_pages > 1 && !forward ==> target == Some(
            if position == 0 {
                (n_pages - 1) as u32
            } else {
                (position - 1) as u32
            },
        ),
{
    if n_pages <= 1 {
        return None;
    }
    proof {
        lemma_cycle_values(n_pages as nat, position as nat);
    }
    if forward {
        if position + 1 == n_pages {
            Some(0)
        } else {
            Some(position + 1)
        }
    } else {
        if position == 0 {
            Some(n_pages - 1)
        } else {
            Some(position - 1)
        }
    }
}

/// Whether the selected tab may be closed: never the last one.
pub fn may_close_tab(n_pages: u32) -> (r: bool)
    ensures
        r == (n_pages > 1),
{
    n_pages > 1
}

/// Cycling forward selects the next tab, and the first one after the last;
/// cycling back selects the previous tab, and the last one before the first.
pub proof fn lemma_cycle_values(n: nat, position: nat)
    requires
        position < n,
        n > 1,
    ensures
        cycled(n, position, true) == Some(if position + 1 == n { 0 } else { position + 1 }),
        cycled(n, position, false) == Some(if position == 0 { (n - 1) as nat } else { (position - 1) as nat }),
{
    if position + 1 == n {
        vstd::arithmetic::div_mod::lemma_mod_self_0(n as int);
    } else {
        vstd::arithmetic::div_mod::lemma_small_mod(position + 1, n);
    }
    if position == 0 {
        vstd::arithmetic::div_mod::lemma_small_mod((n - 1) as nat, n);
    } else {
        vstd::arithmetic::div_mod::lemma_mod_add_multiples_vanish((position - 1) as int, n as int);
        vstd::arithmetic::div_mod::lemma_small_mod((position - 1) as nat, n);
    }
}

/// Cycling forward and then back returns to the tab one started on, and so
/// does cycling back and then forward.
pub proof fn cycling_back_undoes_forward(n: nat, position: nat)
    requires
        position < n,
        n > 1,
    ensures
        cycled(n, cycled(n, position, true)->0, false) == Some(position),
        cycled(n, cycled(n, position, false)->0, true) == Some(position),
{
    lemma_cycle_values(n, position);
    let f = if position + 1 == n { 0 } else { position + 1 };
    let b: nat = if position == 0 { (n - 1) as nat } else { (position - 1) as nat };
    lemma_cycle_values(n, f);
    lemma_cycle_values(n, b);
}

} // verus!
