use vstd::prelude::*;

pub mod error;
pub mod file;

verus! {

/// The window of `cur` at `start` replaced by `repl`, everything else kept.
pub open spec fn window_replaced<T>(cur: Seq<T>, start: int, repl: Seq<T>) -> Seq<T> {
    cur.take(start) + repl + cur.skip(start + repl.len())
}

/// What one visit leaves of the buffer: a replacement of exactly the
/// window's length is written back in place, anything else changes
/// nothing.
pub open spec fn window_step<T>(cur: Seq<T>, start: int, size: int, answer: Option<Vec<T>>) -> Seq<
    T,
> {
    match answer {
        Some(repl) => if repl@.len() == size {
            window_replaced(cur, start, repl@)
        } else {
            cur
        },
        None => cur,
    }
}

/// One visit of the trace: the answer at step `i` is one the function can
/// give for the window at `i` of the state before the visit, and the next
/// state is what that answer leaves.
pub open spec fn window_link<T, F: Fn(&Vec<T>) -> Option<Vec<T>>>(
    function: F,
    size: int,
    states: Seq<Seq<T>>,
    answers: Seq<Option<Vec<T>>>,
    i: int,
) -> bool {
    &&& (exists|w: Vec<T>|
        w@ == states[i].subrange(i, i + size) && #[trigger] call_ensures(
            function,
            (&w,),
            answers[i],
        ))
    &&& states[i + 1] == window_step(states[i], i, size, answers[i])
}

/// A whole run over the windows, left to right: each state follows from
/// the one before it by an answer the function can give.
pub open spec fn window_trace<T, F: Fn(&Vec<T>) -> Option<Vec<T>>>(
    function: F,
    size: int,
    states: Seq<Seq<T>>,
    answers: Seq<Option<Vec<T>>>,
) -> bool {
    &&& states.len() == answers.len() + 1
    &&& forall|i: int|
        0 <= i < answers.len() ==> #[trigger] window_link(function, size, states, answers, i)
}

/// Calls `function` on every contiguous window of length `size` of
/// `data`, in order, overlapping; a window the function answers with a
/// replacement of the right length is written back in place, so later
/// windows see earlier replacements. When the slice is shorter than
/// `size`, or `size` is zero, the function is not called.
///
/// The final buffer is the end of a [`window_trace`] from the initial
/// buffer, one step per window, each step taken with an answer the
/// function's own postcondition admits; a function whose postconditions
/// determine its answers thereby pins the final buffer exactly. The
/// length never changes, and a function that never asks for a replacement
/// leaves `data` untouched.
pub fn for_each_window_mut<T: Copy, F: Fn(&Vec<T>) -> Option<Vec<T>>>(
    data: &mut Vec<T>,
    size: usize,
    function: F,
)
    requires
        forall|w: Vec<T>| w.len() == size ==> #[trigger] call_requires(function, (&w,)),
    ensures
        final(data)@.len() == old(data)@.len(),
        size == 0 || size > old(data)@.len() ==> final(data)@ == old(data)@,
        1 <= size <= old(data)@.len() ==> (exists|
            states: Seq<Seq<T>>,
            answers: Seq<Option<Vec<T>>>,
        |
            {
                &&& #[trigger] window_trace(function, size as int, states, answers)
                &&& answers.len() == old(data)@.len() - size + 1
                &&& states[0] == old(data)@
                &&& states[answers.len() as int] == final(data)@
            }),
        (forall|w: Vec<T>, o: Option<Vec<T>>|
            #[trigger] call_ensures(function, (&w,), o) ==> o is None) ==> final(data)@ == old(
            data,
        )@,
{
    let len = data.len();
    if size > len || size == 0 {
        return ;
    }
    let ghost untouched = forall|w: Vec<T>, o: Option<Vec<T>>|
        #[trigger] call_ensures(function, (&w,), o) ==> o is None;
    let ghost mut states: Seq<Seq<T>> = seq![data@];
    let ghost mut answers: Seq<Option<Vec<T>>> = Seq::empty();
    let mut start: usize = 0;
    while start <= len - size
        invariant
            forall|w: Vec<T>| w.len() == size ==> #[trigger] call_requires(function, (&w,)),
            untouched == (forall|w: Vec<T>, o: Option<Vec<T>>|
                #[trigger] call_ensures(function, (&w,), o) ==> o is None),
            1 <= size <= len,
            start <= len - size + 1,
            data@.len() == len,
            states.len() == start + 1,
            answers.len() == start,
            states[0] == old(data)@,
            states[start as int] == data@,
            window_trace(function, size as int, states, answers),
            untouched ==> data@ == old(data)@,
        decreases len - start,
    {
        let ghost prev = data@;
        let mut win: Vec<T> = Vec::new();
        let mut j: usize = 0;
        while j < size
            invariant
                start + size <= len,
                j <= size,
                data@.len() == len,
                data@ == prev,
                win@ == prev.subrange(start as int, start as int + j),
            decreases size - j,
        {
            win.push(data[start + j]);
            proof {
                assert(prev.subrange(start as int, start as int + j + 1) =~= prev.subrange(
                    start as int,
                    start as int + j,
                ).push(prev[start as int + j]));
            }
            j += 1;
        }
        let answer = function(&win);
        match &answer {
            Some(repl) => {
                proof {
                    if untouched {
                        assert(!(answer is None));
                    }
                }
                if repl.len() == size {
                    let mut k: usize = 0;
                    proof {
                        assert(prev.take(start as int) + repl@.take(0) + prev.skip(start as int)
                            =~= prev);
                    }
                    while k < size
                        invariant
                            start + size <= len == prev.len(),
                            k <= size == repl@.len(),
                            data@.len() == len,
                            data@ == prev.take(start as int) + repl@.take(k as int) + prev.skip(
                                start as int + k,
                            ),
                        decreases size - k,
                    {
                        let ghost before = data@;
                        data[start + k] = repl[k];
                        proof {
                            assert(data@ =~= prev.take(start as int) + repl@.take(k as int + 1)
                                + prev.skip(start as int + k + 1));
                        }
                        k += 1;
                    }
                    proof {
                        assert(repl@.take(size as int) =~= repl@);
                        assert(data@ == window_replaced(prev, start as int, repl@));
                    }
                }
            },
            None => {},
        }
        proof {
            assert(data@ == window_step(prev, start as int, size as int, answer));
            assert(data@.len() == len) by {
                match &answer {
                    Some(repl) => {
                        if repl@.len() == size {
                            assert(window_replaced(prev, start as int, repl@).len() == len);
                        }
                    },
                    None => {},
                }
            }
            let old_states = states;
            let old_answers = answers;
            states = states.push(data@);
            answers = answers.push(answer);
            assert(answers[start as int] == answer);
            assert(states[start as int] == prev);
            assert(states[start as int + 1] == data@);
            assert(win@ == states[start as int].subrange(start as int, start as int + size));
            assert(call_ensures(function, (&win,), answers[start as int]));
            assert(states[start as int + 1] == window_step(
                states[start as int],
                start as int,
                size as int,
                answers[start as int],
            ));
            assert(window_link(function, size as int, states, answers, start as int));
            assert forall|i: int| 0 <= i < answers.len() implies #[trigger] window_link(
                function,
                size as int,
                states,
                answers,
                i,
            ) by {
                if i < start {
                    assert(window_link(function, size as int, old_states, old_answers, i));
                    assert(states[i] == old_states[i]);
                    assert(states[i + 1] == old_states[i + 1]);
                    assert(answers[i] == old_answers[i]);
                }
            }
        }
        start += 1;
    }
    proof {
        assert(answers.len() == len - size + 1);
        assert(window_trace(function, size as int, states, answers) && states[0] == old(data)@
            && states[answers.len() as int] == data@);
    }
}

/// Character-exact string equality, stated over the views of both strings.
pub fn str_eq(a: &str, b: &str) -> (r: bool)
    ensures
        r == (a@ == b@),
{
    let la = a.unicode_len();
    let lb = b.unicode_len();
    if la != lb {
        return false;
    }
    let mut i: usize = 0;
    while i < la
        invariant
            la == a@.len(),
            la == b@.len(),
            i <= la,
            forall|j: int| 0 <= j < i ==> a@[j] == b@[j],
        decreases la - i,
    {
        if a.get_char(i) != b.get_char(i) {
            return false;
        }
        i += 1;
    }
    proof {
        assert(a@ =~= b@);
    }
    true
}

} // verus!
