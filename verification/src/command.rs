//! Command lines handed to the caller to run, and what running them gave.

use vstd::prelude::*;
use vstd::string::*;

verus! {

/// A program and the arguments it is started with.
#[derive(Debug, Clone)]
pub struct CommandLine {
    pub program: String,
    pub args: Vec<String>,
}

/// What became of a command line that the caller was asked to run.
#[derive(Debug, Clone)]
pub enum RunStatus {
    /// The program ran and exited, with its exit code (none when a signal
    /// ended it).
    Exited(Option<i32>),
    /// The program could not be started; the reason, as the system gave it.
    NotStarted(String),
}

/// The character sequences held by a sequence of strings.
pub open spec fn strings(v: Seq<String>) -> Seq<Seq<char>> {
    v.map_values(|s: String| s@)
}

/// `cmd` starts `program` with exactly `args`.
pub open spec fn command_is(cmd: CommandLine, program: Seq<char>, args: Seq<Seq<char>>) -> bool {
    &&& cmd.program@ == program
    &&& strings(cmd.args@) == args
}

/// `flag value` for each value, in order.
pub open spec fn flag_pairs(flag: Seq<char>, values: Seq<Seq<char>>) -> Seq<Seq<char>>
    decreases values.len(),
{
    if values.len() == 0 {
        seq![]
    } else {
        flag_pairs(flag, values.drop_last()) + seq![flag, values.last()]
    }
}

/// Append one argument.
pub(crate) fn push_arg(args: &mut Vec<String>, arg: &str)
    ensures
        strings(final(args)@) == strings(old(args)@).push(arg@),
{
    args.push(String::from_str(arg));
    proof {
        assert(strings(args@) =~= strings(old(args)@).push(arg@));
    }
}

/// Append every string of `values`, in order.
pub(crate) fn push_args(args: &mut Vec<String>, values: &Vec<String>)
    ensures
        strings(final(args)@) == strings(old(args)@) + strings(values@),
{
    let mut i: usize = 0;
    while i < values.len()
        invariant
            0 <= i <= values.len(),
            strings(args@) == strings(old(args)@) + strings(values@).take(i as int),
        decreases values.len() - i,
    {
        push_arg(args, values[i].as_str());
        proof {
            assert(strings(values@).take(i + 1) =~= strings(values@).take(i as int).push(
                values@[i as int]@,
            ));
        }
        i = i + 1;
    }
    proof {
        assert(strings(values@).take(values.len() as int) =~= strings(values@));
    }
}

/// Append `flag value` for every string of `values`, in order.
pub(crate) fn push_flag_pairs(args: &mut Vec<String>, flag: &str, values: &Vec<String>)
    ensures
        strings(final(args)@) == strings(old(args)@) + flag_pairs(flag@, strings(values@)),
{
    let mut i: usize = 0;
    while i < values.len()
        invariant
            0 <= i <= values.len(),
            strings(args@) == strings(old(args)@) + flag_pairs(
                flag@,
                strings(values@).take(i as int),
            ),
        decreases values.len() - i,
    {
        push_arg(args, flag);
        push_arg(args, values[i].as_str());
        proof {
            let taken = strings(values@).take(i + 1);
            assert(taken.drop_last() =~= strings(values@).take(i as int));
            assert(taken.last() == values@[i as int]@);
            assert(strings(args@) =~= strings(old(args)@) + flag_pairs(flag@, taken));
        }
        i = i + 1;
    }
    proof {
        assert(strings(values@).take(values.len() as int) =~= strings(values@));
    }
}

/// `flag_pairs` holds `flag` at every even position and the values, in
/// order, at the odd ones.
pub proof fn lemma_flag_pairs_layout(flag: Seq<char>, values: Seq<Seq<char>>)
    ensures
        flag_pairs(flag, values).len() == 2 * values.len(),
        forall|j: int| 0 <= j < values.len() ==> #[trigger] flag_pairs(flag, values)[2 * j] == flag,
        forall|j: int|
            0 <= j < values.len() ==> #[trigger] flag_pairs(flag, values)[2 * j + 1] == values[j],
    decreases values.len(),
{
    if values.len() > 0 {
        let init = values.drop_last();
        lemma_flag_pairs_layout(flag, init);
        let p = flag_pairs(flag, values);
        let q = flag_pairs(flag, init);
        assert(p == q + seq![flag, values.last()]);
        assert forall|j: int| 0 <= j < values.len() implies #[trigger] p[2 * j] == flag by {
            if j < init.len() {
                assert(q[2 * j] == flag);
            }
        }
        assert forall|j: int| 0 <= j < values.len() implies #[trigger] p[2 * j + 1] == values[j] by {
            if j < init.len() {
                assert(q[2 * j + 1] == init[j]);
            }
        }
    }
}

} // verus!
