//! Which of the default task methods a task handler still needs.

use vstd::prelude::*;

use crate::text::{in_list, list_contains, texts};

verus! {

/// The task methods a handler is given by default, in the order they are added.
pub open spec fn task_method_names() -> Seq<Seq<char>> {
    seq!["list_tasks"@, "enqueue_task"@, "get_task_info"@, "get_task_result"@, "cancel_task"@]
}

/// The default task methods, in order, that are not among the handler's `existing`
/// methods.
pub open spec fn missing_methods(existing: Seq<String>) -> Seq<Seq<char>> {
    task_method_names().filter(undefined_in(existing))
}

/// The methods not among `existing`.
pub open spec fn undefined_in(existing: Seq<String>) -> spec_fn(Seq<char>) -> bool {
    |m: Seq<char>| !in_list(existing, m)
}

/// The default task methods that a handler with the methods `existing` lacks, in the
/// order they are added: each of `list_tasks`, `enqueue_task`, `get_task_info`,
/// `get_task_result` and `cancel_task` that it does not define.
pub fn missing_task_methods(existing: &Vec<String>) -> (r: Vec<String>)
    ensures
        texts(r@) == missing_methods(existing@),
{
    let names: [&str; 5] = ["list_tasks", "enqueue_task", "get_task_info", "get_task_result", "cancel_task"];
    let mut out: Vec<String> = Vec::new();
    let mut i: usize = 0;
    proof {
        reveal_strlit("list_tasks");
        reveal_strlit("enqueue_task");
        reveal_strlit("get_task_info");
        reveal_strlit("get_task_result");
        reveal_strlit("cancel_task");
    }
    let ghost all = task_method_names();
    assert(all.subrange(0, 0).filter(undefined_in(existing@)) =~= Seq::<Seq<char>>::empty()) by {
        reveal(Seq::filter);
    }
    while i < 5
        invariant
            i <= 5,
            all == task_method_names(),
            forall|k: int| 0 <= k < 5 ==> (#[trigger] names@[k])@ == all[k],
            texts(out@) == all.subrange(0, i as int).filter(undefined_in(existing@)),
        decreases 5 - i,
    {
        let name = names[i];
        let ghost before = texts(out@);
        proof {
            reveal(Seq::filter);
            let sub = all.subrange(0, i + 1);
            assert(sub.drop_last() =~= all.subrange(0, i as int));
            assert(sub.last() == all[i as int]);
            assert(name@ == all[i as int]);
        }
        if !list_contains(existing, name) {
            out.push(name.to_string());
            assert(texts(out@) =~= before.push(name@));
        } else {
            assert(texts(out@) =~= before);
        }
        i = i + 1;
    }
    assert(all.subrange(0, 5) =~= all);
    out
}

} // verus!
