//! The arguments of the process.

use vstd::prelude::*;

use crate::text::{opt_text, same_text};

verus! {

/// An argument: its text, where it is one, and the value that the system gave.
pub struct Argument<T> {
    /// The argument as text; `None` where it is not valid Unicode.
    pub text: Option<String>,
    /// The argument as the system gave it.
    pub raw: T,
}

impl<T> Argument<T> {
    /// Whether the argument reads as `text`.
    pub open spec fn reads(&self, text: Seq<char>) -> bool {
        opt_text(self.text) == Some(text)
    }

    /// Tests whether the argument reads as `text`.
    pub fn reads_as(&self, text: &str) -> (r: bool)
        ensures
            r == self.reads(text@),
            r <==> (self.text matches Some(own) && own@ == text@),
    {
        match &self.text {
            Some(own) => same_text(own.as_str(), text),
            None => false,
        }
    }
}

/// Whether cargo has put the name of the subcommand behind the name of the binary.
pub open spec fn names_subcommand<T>(args: Seq<Argument<T>>) -> bool {
    args.len() > 1 && args[1].reads("embed"@)
}

/// The arguments without the name of the subcommand.
pub open spec fn stripped<T>(args: Seq<Argument<T>>) -> Seq<Argument<T>> {
    if names_subcommand(args) {
        args.remove(1)
    } else {
        args
    }
}

/// The first position from `from` on at which an argument reads as `text`.
pub open spec fn position<T>(args: Seq<Argument<T>>, text: Seq<char>, from: int) -> Option<int>
    decreases args.len() - from,
{
    if from < 0 || from >= args.len() {
        None
    } else if args[from].reads(text) {
        Some(from)
    } else {
        position(args, text, from + 1)
    }
}

/// The arguments without the first one that reads as `text`.
pub open spec fn without_first<T>(args: Seq<Argument<T>>, text: Seq<char>) -> Seq<Argument<T>> {
    match position(args, text, 0) {
        Some(i) => args.remove(i),
        None => args,
    }
}

/// When cargo calls the binary, the first argument behind the name of the binary is
/// `embed`: removes it.
pub fn strip_subcommand<T>(args: Vec<Argument<T>>) -> (r: Vec<Argument<T>>)
    ensures
        r@ == stripped(args@),
        args@.len() > 1 && (args@[1].text matches Some(text) && text@ == "embed"@) ==> r@
            == args@.take(1) + args@.skip(2),
        !(args@.len() > 1 && (args@[1].text matches Some(text) && text@ == "embed"@)) ==> r@
            == args@,
{
    proof {
        lemma_stripped(args@);
    }
    let mut args = args;
    if args.len() > 1 && args[1].reads_as("embed") {
        args.remove(1);
    }
    args
}

/// The arguments behind the name of the binary, without the first one that names the
/// configuration profile.
pub fn forwarded_args<T>(args: Vec<Argument<T>>, config_name: &str) -> (r: Vec<Argument<T>>)
    requires
        args@.len() > 0,
    ensures
        r@ == without_first(args@.skip(1), config_name@),
{
    let mut args = args;
    let ghost all = args@;
    args.remove(0);
    assert(args@ =~= all.skip(1));
    let ghost rest = args@;
    let mut i: usize = 0;
    while i < args.len()
        invariant
            args@ == rest,
            i <= args.len(),
            position(rest, config_name@, 0) == position(rest, config_name@, i as int),
        ensures
            args@ == rest,
            i <= args.len(),
            position(rest, config_name@, 0) == (if i < rest.len() {
                Some(i as int)
            } else {
                None
            }),
        decreases args.len() - i,
    {
        if args[i].reads_as(config_name) {
            break;
        }
        i = i + 1;
    }
    if i < args.len() {
        args.remove(i);
    }
    args
}

/// It makes no difference whether cargo calls the binary, with the name of the subcommand
/// behind the name of the binary, or the user does, without it.
pub proof fn lemma_called_by_cargo<T>(args: Seq<Argument<T>>, subcommand: Argument<T>)
    requires
        args.len() > 0,
        !names_subcommand(args),
        subcommand.reads("embed"@),
    ensures
        stripped(args.insert(1, subcommand)) == stripped(args),
{
    assert(args.insert(1, subcommand).remove(1) =~= args);
}

/// At most one argument is removed as the name of the profile, all others keep their
/// order, and an argument that reads as the name and is removed is the first such one.
pub proof fn lemma_without_first<T>(args: Seq<Argument<T>>, text: Seq<char>)
    ensures
        match position(args, text, 0) {
            Some(i) => {
                &&& 0 <= i < args.len()
                &&& args[i].reads(text)
                &&& forall|k: int| 0 <= k < i ==> !(#[trigger] args[k]).reads(text)
                &&& without_first(args, text) == args.take(i) + args.skip(i + 1)
            },
            None => {
                &&& forall|k: int| 0 <= k < args.len() ==> !(#[trigger] args[k]).reads(text)
                &&& without_first(args, text) == args
            },
        },
{
    lemma_position(args, text, 0);
    if let Some(i) = position(args, text, 0) {
        assert(args.remove(i) =~= args.take(i) + args.skip(i + 1));
    }
}

proof fn lemma_position<T>(args: Seq<Argument<T>>, text: Seq<char>, from: int)
    requires
        0 <= from <= args.len(),
    ensures
        match position(args, text, from) {
            Some(i) => {
                &&& from <= i < args.len()
                &&& args[i].reads(text)
                &&& forall|k: int| from <= k < i ==> !(#[trigger] args[k]).reads(text)
            },
            None => forall|k: int|
                from <= k < args.len() ==> !(#[trigger] args[k]).reads(text),
        },
    decreases args.len() - from,
{
    if from < args.len() && !args[from].reads(text) {
        lemma_position(args, text, from + 1);
    }
}

/// Only the argument behind the name of the binary is ever removed as the name of the
/// subcommand, and only where its text is just that name.
pub proof fn lemma_stripped<T>(args: Seq<Argument<T>>)
    ensures
        args.len() > 1 && (args[1].text matches Some(text) && text@ == "embed"@) ==> stripped(args)
            == args.take(1) + args.skip(2),
        !(args.len() > 1 && (args[1].text matches Some(text) && text@ == "embed"@)) ==> stripped(
            args,
        ) == args,
{
    if args.len() > 1 {
        assert(args.remove(1) =~= args.take(1) + args.skip(2));
    }
}

/// With other arguments before it and any behind it, the first argument whose text is the
/// name of the profile is the one that is removed; where there is none, none is removed.
pub proof fn lemma_profile_argument_removed<T>(
    before: Seq<Argument<T>>,
    named: Argument<T>,
    behind: Seq<Argument<T>>,
    name: Seq<char>,
)
    requires
        forall|k: int|
            0 <= k < before.len() ==> !((#[trigger] before[k]).text matches Some(text) && text@
                == name),
        named.text matches Some(text) && text@ == name,
    ensures
        without_first(before.push(named) + behind, name) == before + behind,
        without_first(before, name) == before,
{
    let all = before.push(named) + behind;
    lemma_without_first(before, name);
    lemma_without_first(all, name);
    assert(all[before.len() as int] == named);
    assert(named.reads(name));
    assert forall|k: int| 0 <= k < before.len() implies !(#[trigger] all[k]).reads(name) by {
        assert(all[k] == before[k]);
    }
    assert(position(all, name, 0) == Some(before.len() as int));
    assert(without_first(all, name) =~= before + behind);
}

} // verus!
