//! The choice of the audio input device.

use vstd::prelude::*;

verus! {

/// The position of the first device named `target` among `names`, if
/// there is one.
pub open spec fn first_named(names: Seq<String>, target: Seq<char>) -> Option<int>
    decreases names.len(),
{
    if names.len() == 0 {
        None
    } else {
        match first_named(names.drop_last(), target) {
            Some(k) => Some(k),
            None => if names.last()@ == target {
                Some(names.len() - 1)
            } else {
                None
            },
        }
    }
}

/// The device to record from: the first of `names` that bears the
/// configured name. `None` stands for the system's default device, which
/// serves where no name is configured or no device bears it.
pub fn select_input_device_by_name(names: &Vec<String>, target_device: &Option<String>) -> (chosen:
    Option<usize>)
    ensures
        match chosen {
            Some(k) => target_device is Some && first_named(names@, target_device->0@) == Some(
                k as int,
            ) && k < names.len() && names[k as int]@ == target_device->0@,
            None => target_device is None || first_named(names@, target_device->0@) is None,
        },
{
    match target_device {
        None => None,
        Some(target) => {
            let mut i: usize = 0;
            proof {
                assert(names@.take(0) =~= Seq::<String>::empty());
            }
            while i < names.len()
                invariant
                    i <= names.len(),
                    *target_device == Some(*target),
                    first_named(names@.take(i as int), target@) is None,
                decreases names.len() - i,
            {
                proof {
                    assert(names@.take(i + 1).drop_last() =~= names@.take(i as int));
                    assert(names@.take(i + 1).last() == names@[i as int]);
                }
                if names[i] == *target {
                    proof {
                        assert(first_named(names@.take(i + 1), target@) == Some(i as int));
                        lemma_first_named_stays(names@, i + 1, target@);
                    }
                    return Some(i);
                }
                i += 1;
            }
            proof {
                assert(names@.take(names.len() as int) =~= names@);
            }
            None
        },
    }
}

/// A device found among the first `k` names is the one found among all.
pub proof fn lemma_first_named_stays(names: Seq<String>, k: int, target: Seq<char>)
    requires
        0 <= k <= names.len(),
        first_named(names.take(k), target) is Some,
    ensures
        first_named(names, target) == first_named(names.take(k), target),
    decreases names.len() - k,
{
    if k == names.len() {
        assert(names.take(k) =~= names);
    } else {
        assert(names.drop_last().take(k) =~= names.take(k));
        lemma_first_named_stays(names.drop_last(), k, target);
    }
}

} // verus!
