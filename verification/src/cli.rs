//! Command-line helpers: the pre-parse scan that finds the configuration
//! file path among raw arguments, used before any full argument parsing.

use vstd::prelude::*;
use vstd::string::StrSliceExecFns;

verus! {

use crate::text::is_prefix_of;
use crate::text::str_eq;
use crate::text::str_starts_with;

/// The configuration-file path named by the arguments at or after `i`:
/// the element following a "-c" or "--config-file" (when there is one),
/// or the suffix of the first "--config-file=..." element.
pub open spec fn config_file_of(args: Seq<Seq<char>>, i: int) -> Option<Seq<char>>
    decreases args.len() - i,
{
    if i < 0 || i >= args.len() {
        None
    } else if args[i] == "-c"@ || args[i] == "--config-file"@ {
        if i + 1 < args.len() {
            Some(args[i + 1])
        } else {
            config_file_of(args, i + 1)
        }
    } else if is_prefix_of("--config-file="@, args[i]) {
        Some(args[i].subrange("--config-file="@.len() as int, args[i].len() as int))
    } else {
        config_file_of(args, i + 1)
    }
}

/// Scans a raw command line for the configuration file path without full
/// argument parsing. The element at index 0 (the binary name) is skipped.
pub fn extract_config_file(args: &[String]) -> (r: Option<String>)
    ensures
        r is Some ==> config_file_of(args.deep_view(), 1) == Some(r->0@),
        r is None ==> config_file_of(args.deep_view(), 1) is None,
{
    let n = args.len();
    let mut i: usize = 1;
    while i < n
        invariant
            n == args@.len(),
            1 <= i,
            config_file_of(args.deep_view(), 1) == config_file_of(args.deep_view(), i as int),
        decreases n - i,
    {
        let a = &args[i];
        proof {
            assert(args.deep_view()[i as int] == args@[i as int]@);
        }
        if str_eq(a.as_str(), "-c") || str_eq(a.as_str(), "--config-file") {
            if i + 1 < n {
                proof {
                    assert(args.deep_view()[i + 1] == args@[i + 1]@);
                }
                return Some(args[i + 1].clone());
            }
        } else if str_starts_with(a.as_str(), "--config-file=") {
            let p_len = "--config-file=".unicode_len();
            let a_len = a.as_str().unicode_len();
            let rest = a.as_str().substring_char(p_len, a_len);
            return Some(rest.to_owned());
        }
        i += 1;
    }
    None
}

} // verus!
