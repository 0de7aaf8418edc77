use vstd::prelude::*;
use crate::options::views;

verus! {

pub const ROOT_PATH_FLAG: &'static str = "--root-path";

pub const UPDATE_FLAG: &'static str = "--update";

pub const START_FLAG: &'static str = "--start";

/// The command line: the install root if one was given, and whether to
/// update and whether to start the application.
#[derive(Debug)]
pub struct Args {
    pub root_path: Option<String>,
    pub update: bool,
    pub start: bool,
}

/// Why a command line was refused; each carries the argument at fault.
#[derive(Debug)]
pub enum ArgsError {
    MissingValue(String),
    Unrecognized(String),
}

/// The meaning of a command line, as plain values.
pub struct ArgsSpec {
    pub root_path: Option<Seq<char>>,
    pub update: bool,
    pub start: bool,
}

pub enum ArgsErrorSpec {
    MissingValue(Seq<char>),
    Unrecognized(Seq<char>),
}

impl Args {
    pub open spec fn view(&self) -> ArgsSpec {
        ArgsSpec {
            root_path: match self.root_path {
                Some(p) => Some(p@),
                None => None,
            },
            update: self.update,
            start: self.start,
        }
    }
}

impl ArgsError {
    pub open spec fn view(&self) -> ArgsErrorSpec {
        match self {
            ArgsError::MissingValue(a) => ArgsErrorSpec::MissingValue(a@),
            ArgsError::Unrecognized(a) => ArgsErrorSpec::Unrecognized(a@),
        }
    }
}

/// Reads `args` from position `i` on, with `acc` gathered so far. A later
/// `--root-path` overrides an earlier one.
pub open spec fn parse_from(args: Seq<Seq<char>>, i: int, acc: ArgsSpec) -> Result<
    ArgsSpec,
    ArgsErrorSpec,
>
    decreases args.len() - i,
{
    if i < 0 || i >= args.len() {
        Ok(acc)
    } else if args[i] == ROOT_PATH_FLAG@ {
        if i + 1 < args.len() {
            parse_from(args, i + 2, ArgsSpec { root_path: Some(args[i + 1]), ..acc })
        } else {
            Err(ArgsErrorSpec::MissingValue(args[i]))
        }
    } else if args[i] == UPDATE_FLAG@ {
        parse_from(args, i + 1, ArgsSpec { update: true, ..acc })
    } else if args[i] == START_FLAG@ {
        parse_from(args, i + 1, ArgsSpec { start: true, ..acc })
    } else {
        Err(ArgsErrorSpec::Unrecognized(args[i]))
    }
}

pub open spec fn parse_args(args: Seq<Seq<char>>) -> Result<ArgsSpec, ArgsErrorSpec> {
    parse_from(args, 0, ArgsSpec { root_path: None, update: false, start: false })
}

/// Parses the arguments that follow the program name.
pub fn get_args(args: &Vec<String>) -> (r: Result<Args, ArgsError>)
    ensures
        match r {
            Ok(a) => parse_args(views(args@)) == Ok::<ArgsSpec, ArgsErrorSpec>(a.view()),
            Err(e) => parse_args(views(args@)) == Err::<ArgsSpec, ArgsErrorSpec>(e.view()),
        },
{
    let root_flag = String::from_str(ROOT_PATH_FLAG);
    let update_flag = String::from_str(UPDATE_FLAG);
    let start_flag = String::from_str(START_FLAG);
    let mut parsed = Args { root_path: None, update: false, start: false };
    let mut i: usize = 0;
    while i < args.len()
        invariant
            i <= args.len(),
            root_flag@ == ROOT_PATH_FLAG@,
            update_flag@ == UPDATE_FLAG@,
            start_flag@ == START_FLAG@,
            parse_args(views(args@)) == parse_from(views(args@), i as int, parsed.view()),
        decreases args.len() - i,
    {
        let arg = &args[i];
        assert(views(args@)[i as int] == arg@);
        if *arg == root_flag {
            if i + 1 < args.len() {
                assert(views(args@)[i + 1] == args@[i + 1]@);
                parsed.root_path = Some(args[i + 1].clone());
                i += 2;
            } else {
                return Err(ArgsError::MissingValue(arg.clone()));
            }
        } else if *arg == update_flag {
            parsed.update = true;
            i += 1;
        } else if *arg == start_flag {
            parsed.start = true;
            i += 1;
        } else {
            return Err(ArgsError::Unrecognized(arg.clone()));
        }
    }
    Ok(parsed)
}

} // verus!
