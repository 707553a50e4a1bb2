//! Publishing an exit code: the text that is written, and the order in
//! which the exit paths receive it.

use vstd::prelude::*;
use vstd::string::StringExecFns;

verus! {

/// The character that stands for the digit `d`.
pub open spec fn digit_char(d: nat) -> char {
    if d == 0 {
        '0'
    } else if d == 1 {
        '1'
    } else if d == 2 {
        '2'
    } else if d == 3 {
        '3'
    } else if d == 4 {
        '4'
    } else if d == 5 {
        '5'
    } else if d == 6 {
        '6'
    } else if d == 7 {
        '7'
    } else if d == 8 {
        '8'
    } else {
        '9'
    }
}

/// The decimal digits of `n`, most significant first, without leading zeros.
pub open spec fn decimal_digits(n: nat) -> Seq<char>
    decreases n,
{
    if n < 10 {
        seq![digit_char(n)]
    } else {
        decimal_digits(n / 10).push(digit_char(n % 10))
    }
}

/// The decimal text of `code`: its digits, behind a minus sign where it is
/// negative.
pub open spec fn decimal(code: int) -> Seq<char> {
    if code < 0 {
        seq!['-'] + decimal_digits((-code) as nat)
    } else {
        decimal_digits(code as nat)
    }
}

fn digit_str(d: u32) -> (text: &'static str)
    requires
        d < 10,
    ensures
        text@ == seq![digit_char(d as nat)],
{
    proof {
        reveal_strlit("0");
        reveal_strlit("1");
        reveal_strlit("2");
        reveal_strlit("3");
        reveal_strlit("4");
        reveal_strlit("5");
        reveal_strlit("6");
        reveal_strlit("7");
        reveal_strlit("8");
        reveal_strlit("9");
    }
    let text = if d == 0 {
        "0"
    } else if d == 1 {
        "1"
    } else if d == 2 {
        "2"
    } else if d == 3 {
        "3"
    } else if d == 4 {
        "4"
    } else if d == 5 {
        "5"
    } else if d == 6 {
        "6"
    } else if d == 7 {
        "7"
    } else if d == 8 {
        "8"
    } else {
        "9"
    };
    assert(text@ =~= seq![digit_char(d as nat)]);
    text
}

fn push_decimal_digits(text: &mut String, n: u32)
    ensures
        final(text)@ == old(text)@ + decimal_digits(n as nat),
    decreases n,
{
    if n >= 10 {
        push_decimal_digits(text, n / 10);
    }
    text.append(digit_str(n % 10));
    assert(text@ =~= old(text)@ + decimal_digits(n as nat));
}

/// The text that is written to an exit path for `code`.
pub fn exit_code_text(code: i32) -> (text: String)
    ensures
        text@ == decimal(code as int),
{
    let mut text = String::new();
    if code < 0 {
        proof {
            reveal_strlit("-");
        }
        text.append("-");
        let magnitude: u32 = (-(code as i64)) as u32;
        push_decimal_digits(&mut text, magnitude);
        assert(text@ =~= decimal(code as int));
    } else {
        push_decimal_digits(&mut text, code as u32);
        assert(text@ =~= decimal(code as int));
    }
    text
}

/// One write of an exit code: the file, and the text that becomes its
/// whole content.
#[derive(Debug)]
pub struct ExitWrite {
    pub path: String,
    pub content: String,
}

/// Mathematical value of an [`ExitWrite`].
pub ghost struct ExitWriteView {
    pub path: Seq<char>,
    pub content: Seq<char>,
}

impl View for ExitWrite {
    type V = ExitWriteView;

    open spec fn view(&self) -> ExitWriteView {
        ExitWriteView { path: self.path@, content: self.content@ }
    }
}

impl DeepView for ExitWrite {
    type V = ExitWriteView;

    open spec fn deep_view(&self) -> ExitWriteView {
        self@
    }
}

/// The writes that publish `code` to `paths`: one for each path, in the
/// order of the paths, each with the decimal text of `code`; a path that is
/// listed twice is written twice.
pub open spec fn exit_writes_for(code: i32, paths: Seq<Seq<char>>) -> Seq<ExitWriteView> {
    Seq::new(paths.len(), |i: int| ExitWriteView { path: paths[i], content: decimal(code as int) })
}

/// The writes that publish `code` to `paths`.
pub fn exit_writes(code: i32, paths: &Vec<String>) -> (writes: Vec<ExitWrite>)
    ensures
        writes.deep_view() == exit_writes_for(code, paths.deep_view()),
{
    let mut writes: Vec<ExitWrite> = Vec::new();
    let mut i: usize = 0;
    while i < paths.len()
        invariant
            i <= paths.len(),
            writes.len() == i,
            forall|k: int|
                0 <= k < i ==> (#[trigger] writes[k])@ == exit_writes_for(
                    code,
                    paths.deep_view(),
                )[k],
        decreases paths.len() - i,
    {
        assert(paths.deep_view()[i as int] == paths[i as int]@);
        writes.push(ExitWrite { path: paths[i].clone(), content: exit_code_text(code) });
        i += 1;
    }
    assert(writes.deep_view() =~= exit_writes_for(code, paths.deep_view()));
    writes
}

/// The exit path at which publishing stopped.
#[derive(Debug, Clone, Copy, PartialEq, Eq, Structural)]
pub struct PublishError {
    /// Position, among the exit paths, of the one that could not be written.
    pub index: usize,
}

/// `write` was applied to the file and the text of `planned`, and answered
/// `done`.
pub open spec fn performed<F: Fn(&String, &String) -> bool>(
    write: F,
    planned: ExitWriteView,
    done: bool,
) -> bool {
    exists|path: String, content: String|
        path@ == planned.path && content@ == planned.content && #[trigger] call_ensures(
            write,
            (&path, &content),
            done,
        )
}

/// The write of `content` to `path` is due: it is one of the writes of
/// `plan`, and every write before it was done. A write behind one that
/// failed is not due, nor is a write that the plan does not hold.
pub open spec fn due<F: Fn(&String, &String) -> bool>(
    write: F,
    plan: Seq<ExitWriteView>,
    path: Seq<char>,
    content: Seq<char>,
) -> bool {
    exists|i: int|
        0 <= i < plan.len() && (#[trigger] plan[i]).path == path && plan[i].content == content
            && forall|k: int| 0 <= k < i ==> performed(write, #[trigger] plan[k], true)
}

/// `written` is what comes of performing `plan` in order through `write`:
/// success where every write was done, and else the position of the first
/// write that was not, with every write before it done.
pub open spec fn published<F: Fn(&String, &String) -> bool>(
    write: F,
    plan: Seq<ExitWriteView>,
    written: Result<(), PublishError>,
) -> bool {
    let stop = match written {
        Ok(()) => plan.len() as int,
        Err(e) => e.index as int,
    };
    &&& 0 <= stop <= plan.len()
    &&& forall|i: int| 0 <= i < stop ==> performed(write, #[trigger] plan[i], true)
    &&& written is Err ==> stop < plan.len() && performed(write, plan[stop], false)
}

/// Publishes `code`: performs the writes of [`exit_writes`] in order through
/// `write`, which replaces a file's content by a text and says whether it
/// could.
///
/// The first write that fails ends the publication: the paths behind it are
/// not tried, nothing is retried, and what was written stays. `write` has
/// to take the writes that are [`due`] and no others, so that no other is
/// made: none for an empty list of paths.
pub fn write_to_exit_paths<F: Fn(&String, &String) -> bool>(
    code: i32,
    paths: &Vec<String>,
    write: F,
) -> (written: Result<(), PublishError>)
    requires
        forall|path: String, content: String|
            due(write, exit_writes_for(code, paths.deep_view()), path@, content@)
                ==> call_requires(write, (&path, &content)),
    ensures
        published(write, exit_writes_for(code, paths.deep_view()), written),
{
    let plan = exit_writes(code, paths);
    let mut i: usize = 0;
    while i < plan.len()
        invariant
            i <= plan.len(),
            plan.deep_view() == exit_writes_for(code, paths.deep_view()),
            forall|path: String, content: String|
                due(write, exit_writes_for(code, paths.deep_view()), path@, content@)
                    ==> call_requires(write, (&path, &content)),
            forall|k: int| 0 <= k < i ==> performed(write, #[trigger] plan.deep_view()[k], true),
        decreases plan.len() - i,
    {
        assert(plan.deep_view()[i as int] == plan[i as int]@);
        assert(due(write, plan.deep_view(), plan[i as int].path@, plan[i as int].content@));
        let done = write(&plan[i].path, &plan[i].content);
        assert(performed(write, plan.deep_view()[i as int], done));
        if !done {
            return Err(PublishError { index: i });
        }
        i += 1;
    }
    Ok(())
}

} // verus!
