//! The keyboard keys that stand for the Game Boy's buttons, and the
//! selection of those held down.

use vstd::prelude::*;

verus! {

/// A keyboard key bound to a Game Boy button.
#[derive(Clone, Copy, Debug, PartialEq, Eq, Structural)]
pub enum JoypadKey {
    /// The A button.
    Z,
    /// The B button.
    C,
    /// Select.
    Back,
    /// Start.
    Return,
    Up,
    Down,
    Left,
    Right,
}

pub open spec fn spec_action_keys() -> Seq<JoypadKey> {
    seq![JoypadKey::Z, JoypadKey::C, JoypadKey::Back, JoypadKey::Return]
}

pub open spec fn spec_direction_keys() -> Seq<JoypadKey> {
    seq![JoypadKey::Up, JoypadKey::Down, JoypadKey::Left, JoypadKey::Right]
}

/// The keys of the action buttons: A, B, Select, Start.
pub fn action_keys() -> (r: [JoypadKey; 4])
    ensures
        r@ == spec_action_keys(),
{
    let r = [JoypadKey::Z, JoypadKey::C, JoypadKey::Back, JoypadKey::Return];
    assert(r@ =~= spec_action_keys());
    r
}

/// The keys of the direction pad: up, down, left, right.
pub fn direction_keys() -> (r: [JoypadKey; 4])
    ensures
        r@ == spec_direction_keys(),
{
    let r = [JoypadKey::Up, JoypadKey::Down, JoypadKey::Left, JoypadKey::Right];
    assert(r@ =~= spec_direction_keys());
    r
}

/// The keys `keys[i]` for which `held[i]`, in their order in `keys`.
pub open spec fn held_of(keys: Seq<JoypadKey>, held: Seq<bool>) -> Seq<JoypadKey>
    decreases keys.len(),
{
    if keys.len() == 0 {
        seq![]
    } else {
        let rest = held_of(keys.drop_last(), held);
        if held[keys.len() - 1] {
            rest.push(keys.last())
        } else {
            rest
        }
    }
}

/// The keys of `keys` that are held down, where `held[i]` tells whether
/// `keys[i]` is, in the order of `keys`.
pub fn held_keys(keys: &[JoypadKey], held: &[bool]) -> (r: Vec<JoypadKey>)
    requires
        keys@.len() == held@.len(),
    ensures
        r@ == held_of(keys@, held@),
{
    let mut r: Vec<JoypadKey> = Vec::new();
    let mut i: usize = 0;
    while i < keys.len()
        invariant
            keys@.len() == held@.len(),
            i <= keys@.len(),
            r@ == held_of(keys@.take(i as int), held@),
        decreases keys@.len() - i,
    {
        proof {
            assert(keys@.take(i + 1).drop_last() =~= keys@.take(i as int));
        }
        if held[i] {
            r.push(keys[i]);
        }
        i = i + 1;
    }
    assert(keys@.take(i as int) =~= keys@);
    r
}

/// Every selected key is one of the given keys and is held down, and every
/// given key that is held down is selected.
pub proof fn lemma_held_keys_exact(keys: Seq<JoypadKey>, held: Seq<bool>, k: JoypadKey)
    requires
        keys.len() == held.len(),
    ensures
        held_of(keys, held).contains(k) <==> exists|i: int|
            0 <= i < keys.len() && keys[i] == k && held[i],
    decreases keys.len(),
{
    if keys.len() > 0 {
        let n = keys.len() - 1;
        let init = keys.drop_last();
        lemma_held_keys_exact(init, held.drop_last(), k);
        assert(held_of(init, held.drop_last()) == held_of(init, held)) by {
            lemma_held_of_prefix(init, held.drop_last(), held);
        }
        if held_of(keys, held).contains(k) {
            if held[n] && keys[n] == k {
            } else {
                assert(held_of(init, held).contains(k)) by {
                    if held[n] {
                        let j = choose|j: int|
                            0 <= j < held_of(keys, held).len() && held_of(keys, held)[j] == k;
                        assert(held_of(init, held)[j] == k);
                    }
                }
                let i = choose|i: int| 0 <= i < init.len() && init[i] == k && held.drop_last()[i];
                assert(keys[i] == k && held[i]);
            }
        }
        if exists|i: int| 0 <= i < keys.len() && keys[i] == k && held[i] {
            let i = choose|i: int| 0 <= i < keys.len() && keys[i] == k && held[i];
            if i == n {
                assert(held_of(keys, held).last() == k);
            } else {
                assert(init[i] == k && held.drop_last()[i]);
                let j = choose|j: int|
                    0 <= j < held_of(init, held).len() && held_of(init, held)[j] == k;
                if held[n] {
                    assert(held_of(keys, held)[j] == k);
                }
            }
        }
    }
}

/// Only the flags of the given keys matter.
proof fn lemma_held_of_prefix(keys: Seq<JoypadKey>, a: Seq<bool>, b: Seq<bool>)
    requires
        keys.len() <= a.len(),
        keys.len() <= b.len(),
        forall|i: int| 0 <= i < keys.len() ==> a[i] == b[i],
    ensures
        held_of(keys, a) == held_of(keys, b),
    decreases keys.len(),
{
    if keys.len() > 0 {
        lemma_held_of_prefix(keys.drop_last(), a, b);
    }
}

/// Selecting over one more key adds that key at the end exactly when it is
/// held; over no keys nothing is selected. These fix the selection, in the
/// order of the keys.
pub proof fn lemma_held_keys_extend(keys: Seq<JoypadKey>, held: Seq<bool>, k: JoypadKey, h: bool)
    requires
        keys.len() == held.len(),
    ensures
        held_of(Seq::<JoypadKey>::empty(), Seq::<bool>::empty()) == Seq::<JoypadKey>::empty(),
        held_of(keys.push(k), held.push(h)) == (if h {
            held_of(keys, held).push(k)
        } else {
            held_of(keys, held)
        }),
{
    assert(keys.push(k).drop_last() =~= keys);
    lemma_held_of_prefix(keys, held.push(h), held);
}

/// With every key held all are selected, in order; with none held none is.
pub proof fn lemma_held_keys_all_or_none(keys: Seq<JoypadKey>, held: Seq<bool>)
    requires
        keys.len() == held.len(),
    ensures
        (forall|i: int| 0 <= i < held.len() ==> held[i]) ==> held_of(keys, held) == keys,
        (forall|i: int| 0 <= i < held.len() ==> !held[i]) ==> held_of(keys, held)
            == Seq::<JoypadKey>::empty(),
        held_of(keys, held).len() <= keys.len(),
    decreases keys.len(),
{
    if keys.len() > 0 {
        lemma_held_keys_all_or_none(keys.drop_last(), held.drop_last());
        lemma_held_of_prefix(keys.drop_last(), held.drop_last(), held);
        assert(keys.drop_last().push(keys.last()) =~= keys);
    }
}

} // verus!
