//! Command surface: the parsed command line, the verified argument parser,
//! the output lines, and the dispatch of one command against a backend.

use crate::todo::{create_task, get_task, PersistencyDriver, Task as TodoTask};
use vstd::prelude::*;
use vstd::string::StringExecFns;

verus! {

/// The whole parsed command line.
pub struct Cli {
    pub task: Task,
}

/// The two subcommands.
pub enum Task {
    Add(TaskAdd),
    Get(TaskGet),
}

/// `add <title>`: create a task with this title.
pub struct TaskAdd {
    pub title: String,
}

/// `get <id>`: retrieve the task stored under this identifier.
pub struct TaskGet {
    pub id: String,
}

/// Parses the arguments that followed the program name: exactly a
/// subcommand word and one positional argument. Anything else is rejected
/// with `None`.
pub fn parse(args: &Vec<String>) -> (r: Option<Cli>)
    ensures
        r is Some <==> (args@.len() == 2 && (args@[0]@ == "add"@ || args@[0]@ == "get"@)),
        (match r {
            Some(cli) => (match cli.task {
                Task::Add(a) => args@[0]@ == "add"@ && a.title@ == args@[1]@,
                Task::Get(g) => args@[0]@ == "get"@ && g.id@ == args@[1]@,
            }),
            None => true,
        }),
{
    if args.len() != 2 {
        return None;
    }
    let add_word = String::from_str("add");
    let get_word = String::from_str("get");
    if args[0] == add_word {
        Some(Cli { task: Task::Add(TaskAdd { title: args[1].clone() }) })
    } else if args[0] == get_word {
        Some(Cli { task: Task::Get(TaskGet { id: args[1].clone() }) })
    } else {
        None
    }
}

/// The line printed after a successful `add`.
pub fn render_created(id: &String) -> (r: String)
    ensures
        r@ == "id: "@ + id@,
{
    let mut r = String::from_str("id: ");
    r.append(id.as_str());
    r
}

/// The line printed after a successful `get`.
pub fn render_found(task: &TodoTask) -> (r: String)
    ensures
        r@ == "title: "@ + task.title@,
{
    let mut r = String::from_str("title: ");
    r.append(task.title.as_str());
    r
}

/// The line printed where `get` found nothing.
pub fn render_missing() -> (r: String)
    ensures
        r@ == "No entry found."@,
{
    String::from_str("No entry found.")
}

/// Performs one parsed command against a backend and returns the line to
/// print, `None` where nothing is printed (a failed `add`).
///
/// For `add`, the printed line is `id: ` followed by the fresh identifier
/// now mapped to the given title; a refused write prints nothing and
/// leaves the store unchanged. For `get`, the store is unchanged and the
/// line is `title: ` followed by the stored title, or `No entry found.`;
/// on a reliable backend it is the former exactly where the identifier is
/// stored.
pub fn run<P: PersistencyDriver>(persistency: &mut P, cmd: Cli) -> (r: Option<String>)
    ensures
        (match cmd.task {
            Task::Add(a) => (match r {
                Some(line) => line@.len() >= 4 && line@.subrange(0, 4) == "id: "@ && !old(
                    persistency,
                ).contents().contains_key(line@.skip(4)) && final(persistency).contents() == old(
                    persistency,
                ).contents().insert(line@.skip(4), a.title@),
                None => final(persistency).contents() == old(persistency).contents(),
            }) && (old(persistency).reliable() ==> r is Some) && (old(persistency).failing()
                ==> r is None),
            Task::Get(g) => final(persistency).contents() == old(persistency).contents() && (match r {
                Some(line) => line@ == "No entry found."@ || (old(
                    persistency,
                ).contents().contains_key(g.id@) && line@ == "title: "@ + old(
                    persistency,
                ).contents()[g.id@]),
                None => false,
            }) && (old(persistency).reliable() ==> (match r {
                Some(line) => if old(persistency).contents().contains_key(g.id@) {
                    line@ == "title: "@ + old(persistency).contents()[g.id@]
                } else {
                    line@ == "No entry found."@
                },
                None => false,
            })),
        }),
        final(persistency).reliable() == old(persistency).reliable(),
        final(persistency).failing() == old(persistency).failing(),
{
    match cmd.task {
        Task::Add(a) => {
            let created = create_task(persistency, a.title.as_str());
            match created {
                Some(id) => {
                    let line = render_created(&id);
                    proof {
                        reveal_strlit("id: ");
                        assert(line@.subrange(0, 4) =~= "id: "@);
                        assert(line@.skip(4) =~= id@);
                    }
                    Some(line)
                },
                None => None,
            }
        },
        Task::Get(g) => {
            let found = get_task(persistency, g.id);
            match found {
                Some(task) => Some(render_found(&task)),
                None => Some(render_missing()),
            }
        },
    }
}

} // verus!
