//! Where results go: the output directory's name, the outcome of one run and
//! the log file that a completed run is written to.
use vstd::prelude::*;
use vstd::string::StringExecFns;

verus! {

/// The character of a decimal digit.
pub open spec fn digit_char(d: nat) -> char {
    if d == 0 {
        '0'
    } else if d == 1 {
        '1'
    } else if d == 2 {
        '2'
    } else if d == 3 {
        '3'
    } else if d == 4 {
        '4'
    } else if d == 5 {
        '5'
    } else if d == 6 {
        '6'
    } else if d == 7 {
        '7'
    } else if d == 8 {
        '8'
    } else {
        '9'
    }
}

/// The decimal digits of `n`, most significant first, without leading zeros.
pub open spec fn dec(n: nat) -> Seq<char>
    decreases n,
{
    if n < 10 {
        seq![digit_char(n)]
    } else {
        dec(n / 10).push(digit_char(n % 10))
    }
}

/// The path of the log file of one run: `{dir}/{label}-{index}.log`.
pub open spec fn log_path_spec(dir: Seq<char>, label: Seq<char>, index: nat) -> Seq<char> {
    dir + seq!['/'] + label + seq!['-'] + dec(index) + seq!['.', 'l', 'o', 'g']
}

fn digit_str(d: u32) -> (r: &'static str)
    requires
        d < 10,
    ensures
        r@ == seq![digit_char(d as nat)],
{
    proof {
        reveal_strlit("0");
        reveal_strlit("1");
        reveal_strlit("2");
        reveal_strlit("3");
        reveal_strlit("4");
        reveal_strlit("5");
        reveal_strlit("6");
        reveal_strlit("7");
        reveal_strlit("8");
        reveal_strlit("9");
    }
    if d == 0 {
        "0"
    } else if d == 1 {
        "1"
    } else if d == 2 {
        "2"
    } else if d == 3 {
        "3"
    } else if d == 4 {
        "4"
    } else if d == 5 {
        "5"
    } else if d == 6 {
        "6"
    } else if d == 7 {
        "7"
    } else if d == 8 {
        "8"
    } else {
        "9"
    }
}

/// The decimal form of `n`.
pub fn decimal(n: u32) -> (r: String)
    ensures
        r@ == dec(n as nat),
    decreases n,
{
    if n < 10 {
        String::from_str(digit_str(n))
    } else {
        let mut s = decimal(n / 10);
        s.append(digit_str(n % 10));
        s
    }
}

/// The path of the log file of the run `index` of the variant `label`.
pub fn log_path(dir: &str, label: &str, index: u32) -> (r: String)
    ensures
        r@ == log_path_spec(dir@, label@, index as nat),
{
    proof {
        reveal_strlit("/");
        reveal_strlit("-");
        reveal_strlit(".log");
    }
    let mut s = String::from_str(dir);
    s.append("/");
    s.append(label);
    s.append("-");
    let digits = decimal(index);
    s.append(digits.as_str());
    s.append(".log");
    assert(s@ =~= log_path_spec(dir@, label@, index as nat));
    s
}

/// How one run ended.
#[derive(Debug)]
pub enum RunOutcome {
    /// The process exited by itself; its output was read to the end.
    Exited { code: Option<i32>, stdout: Vec<u8>, stderr: Vec<u8> },
    /// The timeout elapsed first and the process was killed.
    TimedOut,
    /// The process could not be started.
    SpawnFailed,
    /// The process ran but its output could not be read.
    CaptureFailed,
}

/// The outcome of one run, with the variant and the repeat it belongs to.
#[derive(Debug)]
pub struct RunResult {
    pub label: String,
    pub index: u32,
    pub outcome: RunOutcome,
}

/// The log file that a result is written to: only a run that exited by
/// itself has one.
pub fn store_path(dir: &str, result: &RunResult) -> (r: Option<String>)
    ensures
        r is Some <==> result.outcome is Exited,
        r matches Some(p) ==> p@ == log_path_spec(dir@, result.label@, result.index as nat),
{
    match &result.outcome {
        RunOutcome::Exited { .. } => Some(log_path(dir, result.label.as_str(), result.index)),
        _ => None,
    }
}

/// The name of the output directory: the prefix (the command when none is
/// given) followed by the time stamp.
pub fn output_dir_name(prefix: &Option<String>, command: &String, stamp: &str) -> (r: String)
    ensures
        r@ == (match prefix {
            Some(p) => p@,
            None => command@,
        }) + stamp@,
{
    let mut s = match prefix {
        Some(p) => p.clone(),
        None => command.clone(),
    };
    s.append(stamp);
    s
}

/// Relies on chrono's `Local::now` and `format("-%Y%m%d%H%M%S")`: the local
/// time to the second, after a dash. The format begins with a literal dash.
#[verifier::external_body]
fn local_stamp() -> (r: String)
    ensures
        r@.len() > 0,
        r@[0] == '-',
{
    chrono::Local::now().format("-%Y%m%d%H%M%S").to_string()
}

/// The name of a fresh output directory for this moment: the prefix (the
/// command when none is given), a dash and the local time.
pub fn output_dir(prefix: &Option<String>, command: &String) -> (r: String)
    ensures
        ({
            let base = match prefix {
                Some(p) => p@,
                None => command@,
            };
            &&& r@.len() > base.len()
            &&& r@.subrange(0, base.len() as int) == base
            &&& r@[base.len() as int] == '-'
        }),
{
    let stamp = local_stamp();
    let r = output_dir_name(prefix, command, stamp.as_str());
    let ghost base = match prefix {
        Some(p) => p@,
        None => command@,
    };
    assert(r@.subrange(0, base.len() as int) =~= base);
    r
}

} // verus!
