//! The models of the standard types that a derived type's fields name, as
//! the derive resolves them from the type's path.

use vstd::prelude::*;
use crate::model::FlowType;
use crate::strings::{str_equal, views};

verus! {

/// Names of the number types written `number`.
pub open spec fn number_name(n: Seq<char>) -> bool {
    n == "i8"@ || n == "i16"@ || n == "i32"@ || n == "u8"@ || n == "u16"@ || n == "u32"@ || n == "usize"@
        || n == "isize"@ || n == "f32"@ || n == "f64"@
}

/// Names of the integer types written as the configured large-int type.
pub open spec fn large_int_name(n: Seq<char>) -> bool {
    n == "i64"@ || n == "u64"@ || n == "i128"@ || n == "u128"@
}

/// Names of the types written `string`: text, paths, chrono's dates and
/// times, `uuid::Uuid`, `url::Url`.
pub open spec fn text_name(n: Seq<char>) -> bool {
    n == "String"@ || n == "str"@ || n == "char"@ || n == "PathBuf"@ || n == "Path"@ || n == "NaiveDate"@
        || n == "NaiveTime"@ || n == "NaiveDateTime"@ || n == "DateTime"@ || n == "Uuid"@ || n == "Url"@
}

/// Names of the one-argument sequence and set types.
pub open spec fn array_name(n: Seq<char>) -> bool {
    n == "Vec"@ || n == "VecDeque"@ || n == "HashSet"@ || n == "BTreeSet"@ || n == "LinkedList"@
}

/// Names of the one-argument wrappers represented as what they hold.
pub open spec fn wrapper_name(n: Seq<char>) -> bool {
    n == "Box"@ || n == "Rc"@ || n == "Arc"@ || n == "Cow"@ || n == "Cell"@ || n == "RefCell"@ || n == "Mutex"@
        || n == "RwLock"@
}

/// The model of a standard type named by the path `segs` (the last segment
/// names the type) whose generic type arguments have the models `args`; a
/// one-segment name among `params` is that generic parameter. `None` for a
/// path that names no standard type, or with the wrong number of arguments.
pub open spec fn std_path_model(segs: Seq<String>, params: Seq<Seq<char>>, args: Seq<FlowType>) -> Option<FlowType> {
    if segs.len() == 0 {
        None
    } else {
        let name = segs.last()@;
        let n = args.len();
        if segs.len() == 1 && params.contains(name) {
            Some(FlowType::Param(segs.last()))
        } else if name == "bool"@ {
            Some(FlowType::Boolean)
        } else if number_name(name) {
            Some(FlowType::Number)
        } else if large_int_name(name) {
            Some(FlowType::LargeInt)
        } else if text_name(name) {
            Some(FlowType::Text)
        } else if name == "Option"@ && n == 1 {
            Some(FlowType::Nullable(Box::new(args[0])))
        } else if array_name(name) && n == 1 {
            Some(FlowType::ReadOnlyArray(Box::new(args[0])))
        } else if wrapper_name(name) && n == 1 {
            Some(FlowType::Transparent(Box::new(args[0])))
        } else if (name == "HashMap"@ || name == "BTreeMap"@) && n == 2 {
            Some(FlowType::Dictionary(Box::new(args[0]), Box::new(args[1])))
        } else if name == "Result"@ && n == 2 {
            Some(FlowType::ResultOf(Box::new(args[0]), Box::new(args[1])))
        } else if name == "PhantomData"@ {
            Some(FlowType::Void)
        } else if name == "Duration"@ && views(segs).contains("chrono"@) {
            Some(FlowType::Text)
        } else if name == "Value"@ && views(segs).contains("serde_json"@) {
            Some(FlowType::Json)
        } else if name == "Duration"@ {
            Some(FlowType::Duration)
        } else if name == "Infallible"@ {
            Some(FlowType::Never)
        } else {
            None
        }
    }
}

fn contains_str(v: &Vec<String>, s: &str) -> (r: bool)
    ensures
        r == views(v@).contains(s@),
{
    let n = v.len();
    let mut i: usize = 0;
    while i < n
        invariant
            n == v@.len(),
            i <= n,
            forall|j: int| 0 <= j < i ==> v@[j]@ != s@,
        decreases n - i,
    {
        if str_equal(v[i].as_str(), s) {
            proof {
                assert(views(v@)[i as int] == s@);
            }
            return true;
        }
        i = i + 1;
    }
    proof {
        if views(v@).contains(s@) {
            let j = choose|j: int| 0 <= j < views(v@).len() && views(v@)[j] == s@;
            assert(v@[j]@ == s@);
        }
    }
    false
}

/// The model of a standard type named by a path, with the models of its
/// generic type arguments; see `std_path_model`.
pub fn std_path_type(segments: &Vec<String>, params: &Vec<String>, args: Vec<FlowType>) -> (r: Option<FlowType>)
    ensures
        r == std_path_model(segments@, views(params@), args@),
{
    let k = segments.len();
    if k == 0 {
        return None;
    }
    let last = &segments[k - 1];
    let name = last.as_str();
    if k == 1 && contains_str(params, name) {
        return Some(FlowType::Param(last.clone()));
    }
    let n = args.len();
    let mut args = args;
    if str_equal(name, "bool") {
        Some(FlowType::Boolean)
    } else if str_equal(name, "i8") || str_equal(name, "i16") || str_equal(name, "i32") || str_equal(name, "u8")
        || str_equal(name, "u16") || str_equal(name, "u32") || str_equal(name, "usize") || str_equal(name, "isize")
        || str_equal(name, "f32") || str_equal(name, "f64") {
        Some(FlowType::Number)
    } else if str_equal(name, "i64") || str_equal(name, "u64") || str_equal(name, "i128") || str_equal(name, "u128") {
        Some(FlowType::LargeInt)
    } else if str_equal(name, "String") || str_equal(name, "str") || str_equal(name, "char") || str_equal(
        name,
        "PathBuf",
    ) || str_equal(name, "Path") || str_equal(name, "NaiveDate") || str_equal(name, "NaiveTime") || str_equal(
        name,
        "NaiveDateTime",
    ) || str_equal(name, "DateTime") || str_equal(name, "Uuid") || str_equal(name, "Url") {
        Some(FlowType::Text)
    } else if str_equal(name, "Option") && n == 1 {
        Some(FlowType::Nullable(Box::new(args.remove(0))))
    } else if (str_equal(name, "Vec") || str_equal(name, "VecDeque") || str_equal(name, "HashSet") || str_equal(
        name,
        "BTreeSet",
    ) || str_equal(name, "LinkedList")) && n == 1 {
        Some(FlowType::ReadOnlyArray(Box::new(args.remove(0))))
    } else if (str_equal(name, "Box") || str_equal(name, "Rc") || str_equal(name, "Arc") || str_equal(name, "Cow")
        || str_equal(name, "Cell") || str_equal(name, "RefCell") || str_equal(name, "Mutex") || str_equal(
        name,
        "RwLock",
    )) && n == 1 {
        Some(FlowType::Transparent(Box::new(args.remove(0))))
    } else if (str_equal(name, "HashMap") || str_equal(name, "BTreeMap")) && n == 2 {
        let key = args.remove(0);
        let value = args.remove(0);
        Some(FlowType::Dictionary(Box::new(key), Box::new(value)))
    } else if str_equal(name, "Result") && n == 2 {
        let ok = args.remove(0);
        let err = args.remove(0);
        Some(FlowType::ResultOf(Box::new(ok), Box::new(err)))
    } else if str_equal(name, "PhantomData") {
        Some(FlowType::Void)
    } else if str_equal(name, "Duration") && contains_str(segments, "chrono") {
        Some(FlowType::Text)
    } else if str_equal(name, "Value") && contains_str(segments, "serde_json") {
        Some(FlowType::Json)
    } else if str_equal(name, "Duration") {
        Some(FlowType::Duration)
    } else if str_equal(name, "Infallible") {
        Some(FlowType::Never)
    } else {
        None
    }
}

} // verus!
