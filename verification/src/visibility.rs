use vstd::prelude::*;

verus! {

/// Entity `i` comes into view: visible now, not seen before, not the
/// viewer itself.
pub open spec fn comes_into_view(seen: Seq<bool>, visible: Seq<bool>, viewer: int, i: int) -> bool {
    &&& 0 <= i < seen.len()
    &&& visible[i]
    &&& !seen[i]
    &&& i != viewer
}

/// Entity `i` goes out of view: seen before, not visible now, not the
/// viewer itself.
pub open spec fn goes_out_of_view(seen: Seq<bool>, visible: Seq<bool>, viewer: int, i: int) -> bool {
    &&& 0 <= i < seen.len()
    &&& seen[i]
    &&& !visible[i]
    &&& i != viewer
}

pub open spec fn strictly_increasing(s: Seq<usize>) -> bool {
    forall|a: int, b: int| 0 <= a < b < s.len() ==> s[a] < s[b]
}

/// A viewer's update: the entities it now sees replace those it saw; the
/// ids that came into view are to be spawned and those that left it
/// removed, each list in increasing order. The viewer itself is never
/// listed.
pub fn update_visibility(seen: &mut Vec<bool>, visible: &Vec<bool>, viewer: usize) -> (changes: (Vec<usize>, Vec<usize>))
    requires
        old(seen)@.len() == visible@.len(),
    ensures
        final(seen)@ == visible@,
        strictly_increasing(changes.0@),
        strictly_increasing(changes.1@),
        forall|i: int| #![trigger changes.0@.contains(i as usize)] 0 <= i < visible@.len()
            ==> (changes.0@.contains(i as usize) <==> comes_into_view(old(seen)@, visible@, viewer as int, i)),
        forall|i: int| #![trigger changes.1@.contains(i as usize)] 0 <= i < visible@.len()
            ==> (changes.1@.contains(i as usize) <==> goes_out_of_view(old(seen)@, visible@, viewer as int, i)),
        forall|k: int| 0 <= k < changes.0@.len() ==> changes.0@[k] < visible@.len(),
        forall|k: int| 0 <= k < changes.1@.len() ==> changes.1@[k] < visible@.len(),
{
    let ghost before = seen@;
    let mut spawn: Vec<usize> = Vec::new();
    let mut remove: Vec<usize> = Vec::new();
    let n = visible.len();
    let mut i: usize = 0;
    while i < n
        invariant
            n == visible@.len(),
            seen@ == before,
            before.len() == n,
            i <= n,
            strictly_increasing(spawn@),
            strictly_increasing(remove@),
            forall|k: int| 0 <= k < spawn@.len() ==> spawn@[k] < i,
            forall|k: int| 0 <= k < remove@.len() ==> remove@[k] < i,
            forall|j: int| #![trigger spawn@.contains(j as usize)] 0 <= j < i
                ==> (spawn@.contains(j as usize) <==> comes_into_view(before, visible@, viewer as int, j)),
            forall|j: int| #![trigger remove@.contains(j as usize)] 0 <= j < i
                ==> (remove@.contains(j as usize) <==> goes_out_of_view(before, visible@, viewer as int, j)),
            forall|k: int| 0 <= k < spawn@.len() ==> comes_into_view(before, visible@, viewer as int, spawn@[k] as int),
            forall|k: int| 0 <= k < remove@.len() ==> goes_out_of_view(before, visible@, viewer as int, remove@[k] as int),
        decreases n - i,
    {
        let ghost spawn_before = spawn@;
        let ghost remove_before = remove@;
        if i != viewer && seen[i] != visible[i] {
            if visible[i] {
                spawn.push(i);
            } else {
                remove.push(i);
            }
        }
        assert forall|j: int| #![trigger spawn@.contains(j as usize)] 0 <= j < i + 1
            implies (spawn@.contains(j as usize) <==> comes_into_view(before, visible@, viewer as int, j)) by {
            if spawn@.contains(j as usize) {
                let k = choose|k: int| 0 <= k < spawn@.len() && spawn@[k] == j as usize;
            }
            if j < i && spawn_before.contains(j as usize) {
                let k = choose|k: int| 0 <= k < spawn_before.len() && spawn_before[k] == j as usize;
                assert(spawn@[k] == j as usize);
            }
            if j == i && comes_into_view(before, visible@, viewer as int, j) {
                assert(spawn@[spawn@.len() - 1] == i);
            }
        }
        assert forall|j: int| #![trigger remove@.contains(j as usize)] 0 <= j < i + 1
            implies (remove@.contains(j as usize) <==> goes_out_of_view(before, visible@, viewer as int, j)) by {
            if remove@.contains(j as usize) {
                let k = choose|k: int| 0 <= k < remove@.len() && remove@[k] == j as usize;
            }
            if j < i && remove_before.contains(j as usize) {
                let k = choose|k: int| 0 <= k < remove_before.len() && remove_before[k] == j as usize;
                assert(remove@[k] == j as usize);
            }
            if j == i && goes_out_of_view(before, visible@, viewer as int, j) {
                assert(remove@[remove@.len() - 1] == i);
            }
        }
        i += 1;
    }
    let mut k: usize = 0;
    while k < n
        invariant
            n == visible@.len(),
            seen@.len() == n,
            k <= n,
            forall|j: int| 0 <= j < k ==> seen@[j] == visible@[j],
        decreases n - k,
    {
        seen.set(k, visible[k]);
        k += 1;
    }
    assert(seen@ =~= visible@);
    (spawn, remove)
}

/// Once a viewer's seen set matches what is visible, nothing comes into
/// or goes out of view until what is visible changes.
pub proof fn law_visibility_settles(visible: Seq<bool>, viewer: int)
    ensures
        forall|i: int| !comes_into_view(visible, visible, viewer, i) && !goes_out_of_view(visible, visible, viewer, i),
{
}

} // verus!
