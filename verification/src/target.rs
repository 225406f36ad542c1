//! One run of the assembler, as the command line describes it.
use vstd::prelude::*;
use vstd::string::*;
use crate::err::{fault, fault_about, usage_text, AsmError, ErrorKind, Fault};
use crate::object::{assemble, assembled, Report};
use crate::pattern::{is_match, regex_is_match};
use crate::text::str_eq;

verus! {

/// The shape of the name given for the output file.
pub const FILE_NAME: &'static str = "^[a-zA-Z0-9_]+$";

/// How to call the assembler named `bin_path`.
pub fn help_message(bin_path: &str) -> (msg: String)
    ensures
        msg@ == usage_text(bin_path@),
{
    String::from_str("Usage: ").concat(bin_path).concat(
        " <code path>\nuse -v for more information\nuse -o <out file name> for output file name",
    )
}

/// What to assemble, where to write the object module, and whether to
/// narrate.
pub struct Target {
    code_file_path: String,
    execute_file_path: String,
    verbose: bool,
}

/// The mathematical value of a [`Target`].
pub struct Job {
    pub code_file_path: Seq<char>,
    pub execute_file_path: Seq<char>,
    pub verbose: bool,
}

impl View for Target {
    type V = Job;

    closed spec fn view(&self) -> Job {
        Job {
            code_file_path: self.code_file_path@,
            execute_file_path: self.execute_file_path@,
            verbose: self.verbose,
        }
    }
}

/// The views of a list of arguments.
pub open spec fn words(args: Seq<String>) -> Seq<Seq<char>> {
    args.map_values(|s: String| s@)
}

/// The fault of an incomplete command line.
pub open spec fn usage_fault(args: Seq<Seq<char>>) -> Fault {
    fault_about(
        ErrorKind::Usage,
        if args.len() > 0 {
            args[0]
        } else {
            Seq::empty()
        },
    )
}

/// Reads the options `args[from..]` up to the last argument, which is the
/// source file: `-v` asks for narration, `-o` takes the next argument as the
/// name of the output file, to which `.out` is added; anything else is
/// passed over.
pub open spec fn scan_args(args: Seq<Seq<char>>, from: int, job: Job) -> Result<Job, Fault>
    decreases args.len() - from,
{
    if from < 1 || from >= args.len() - 1 {
        Ok(job)
    } else if args[from] == "-v"@ {
        scan_args(args, from + 1, Job { verbose: true, ..job })
    } else if args[from] == "-o"@ {
        if from + 1 >= args.len() - 1 {
            Err(usage_fault(args))
        } else if regex_is_match(FILE_NAME@, args[from + 1]) != Some(true) {
            Err(fault(ErrorKind::InvalidFileName))
        } else {
            scan_args(args, from + 1, Job { execute_file_path: args[from + 1] + ".out"@, ..job })
        }
    } else {
        scan_args(args, from + 1, job)
    }
}

/// The run that a command line describes. The first argument is the name of
/// the program itself and the last is the source file; without options the
/// object module goes to `a.out`.
pub open spec fn job_of(args: Seq<Seq<char>>) -> Result<Job, Fault> {
    if args.len() < 2 {
        Err(usage_fault(args))
    } else {
        scan_args(
            args,
            1,
            Job { code_file_path: args.last(), execute_file_path: "a.out"@, verbose: false },
        )
    }
}

impl Target {
    /// Reads the command line.
    pub fn new(args: &[String]) -> (r: Result<Target, AsmError>)
        ensures
            match r {
                Ok(t) => job_of(words(args@)) == Ok::<Job, Fault>(t@),
                Err(e) => job_of(words(args@)) == Err::<Job, Fault>(e@),
            },
    {
        let n: usize = args.len();
        if n < 2 {
            if n == 0 {
                let nothing = String::new();
                return Err(AsmError::about(ErrorKind::Usage, nothing.as_str()));
            }
            assert(words(args@)[0] == args@[0]@);
            return Err(AsmError::about(ErrorKind::Usage, args[0].as_str()));
        }
        assert(words(args@)[0] == args@[0]@);
        assert(words(args@)[n - 1] == args@[n - 1]@);
        let mut verbose: bool = false;
        let mut execute_file_path = String::from_str("a.out");
        let code_file_path = args[n - 1].clone();
        let mut i: usize = 1;
        while i < n - 1
            invariant
                1 <= i <= n - 1,
                n == args@.len(),
                code_file_path@ == args@[n - 1]@,
                words(args@)[0] == args@[0]@,
                job_of(words(args@)) == scan_args(
                    words(args@),
                    i as int,
                    Job {
                        code_file_path: code_file_path@,
                        execute_file_path: execute_file_path@,
                        verbose,
                    },
                ),
            decreases n - i,
        {
            assert(words(args@)[i as int] == args@[i as int]@);
            if str_eq(args[i].as_str(), "-v") {
                verbose = true;
            } else if str_eq(args[i].as_str(), "-o") {
                if i + 1 >= n - 1 {
                    return Err(AsmError::about(ErrorKind::Usage, args[0].as_str()));
                }
                assert(words(args@)[i + 1] == args@[i + 1]@);
                match is_match(FILE_NAME, args[i + 1].as_str()) {
                    Some(true) => {},
                    _ => {
                        return Err(AsmError::new(ErrorKind::InvalidFileName));
                    },
                }
                execute_file_path = args[i + 1].clone().concat(".out");
            }
            i += 1;
        }
        Ok(Target { code_file_path, execute_file_path, verbose })
    }

    /// The path of the source file.
    pub fn code_file_path(&self) -> (r: &str)
        ensures
            r@ == self@.code_file_path,
    {
        self.code_file_path.as_str()
    }

    /// The path the object module is written to.
    pub fn execute_file_path(&self) -> (r: &str)
        ensures
            r@ == self@.execute_file_path,
    {
        self.execute_file_path.as_str()
    }

    /// Whether the run narrates what it does.
    pub fn verbose(&self) -> (r: bool)
        ensures
            r == self@.verbose,
    {
        self.verbose
    }

    /// Assembles the text of the source file.
    pub fn run(&self, user_code: &str) -> (r: Report)
        ensures
            r@ == assembled(user_code@),
            r.parser.wf(),
            r.parser.verbose == self@.verbose,
    {
        assemble(user_code, self.verbose)
    }
}

} // verus!
