//! Command-line options of the editor.
use vstd::prelude::*;
use vstd::string::*;
use crate::text::str_eq;

verus! {

/// The option that names a flame to open: `--loadFlame <file> <name>`.
pub open spec fn load_flame_flag() -> Seq<char> {
    "--loadFlame"@
}

/// The file and flame name requested by the arguments from position `i`
/// on; a later request overrides an earlier one.  An option without both
/// values is ignored.
pub open spec fn load_flame_request(args: Seq<Seq<char>>, i: int) -> Option<(Seq<char>, Seq<char>)>
    decreases args.len() - i,
{
    if i < 0 || i >= args.len() {
        None
    } else if args[i] == load_flame_flag() && args.len() - i > 2 {
        match load_flame_request(args, i + 3) {
            Some(later) => Some(later),
            None => Some((args[i + 1], args[i + 2])),
        }
    } else {
        load_flame_request(args, i + 1)
    }
}

/// Read `--loadFlame <file> <name>` from the program arguments (the first
/// argument is the program itself).  Returns the file and the flame name.
pub fn parse_load_flame_args(args: &Vec<String>) -> (r: (Option<String>, Option<String>))
    ensures
        match load_flame_request(args@.map_values(|s: String| s@), 1) {
            Some((f, n)) => r.0 matches Some(rf) && r.1 matches Some(rn) && rf@ == f && rn@ == n,
            None => r.0 is None && r.1 is None,
        },
{
    let ghost views = args@.map_values(|s: String| s@);
    let mut file: Option<String> = None;
    let mut name: Option<String> = None;
    let mut i: usize = 1;
    proof {
        reveal_strlit("--loadFlame");
    }
    while i < args.len()
        invariant
            views == args@.map_values(|s: String| s@),
            1 <= i,
            load_flame_request(views, 1) == match load_flame_request(views, i as int) {
                Some(p) => Some(p),
                None => match (file, name) {
                    (Some(f), Some(n)) => Some((f@, n@)),
                    _ => None,
                },
            },
            file is Some <==> name is Some,
        decreases args@.len() - i,
    {
        if str_eq(args[i].as_str(), "--loadFlame") && args.len() - i > 2 {
            file = Some(args[i + 1].clone());
            name = Some(args[i + 2].clone());
            i += 3;
        } else {
            i += 1;
        }
    }
    (file, name)
}

} // verus!
