//! What is known of the devices: which platform to ask for them, and how
//! many cores each kind has.

use crate::error::GPUError;
use vstd::prelude::*;

verus! {

/// The name of the platform whose devices are used.
pub const GPU_NVIDIA_PLATFORM_NAME: &'static str = "NVIDIA CUDA";

/// `==` on `str`: whether two strings hold the same characters.
#[verifier::external_body]
fn str_eq(a: &str, b: &str) -> (same: bool)
    ensures
        same == (a@ == b@),
{
    a == b
}

/// The failure with the given message.
fn failure(msg: &str) -> (e: GPUError)
    ensures
        e.msg@ == msg@,
{
    GPUError { msg: msg.to_owned() }
}

/// The number of cores of the kinds of device that are known from the
/// start.
pub open spec fn builtin_core_count(name: Seq<char>) -> Option<usize> {
    if name == "TITAN RTX"@ {
        Some(4608usize)
    } else if name == "Tesla V100"@ {
        Some(5120usize)
    } else if name == "Tesla P100"@ {
        Some(3584usize)
    } else if name == "GeForce RTX 2080 Ti"@ {
        Some(4352usize)
    } else if name == "GeForce RTX 2080 SUPER"@ {
        Some(3072usize)
    } else if name == "GeForce RTX 2080"@ {
        Some(2944usize)
    } else if name == "GeForce RTX 2070 SUPER"@ {
        Some(2560usize)
    } else if name == "GeForce GTX 1080 Ti"@ {
        Some(3584usize)
    } else if name == "GeForce GTX 1080"@ {
        Some(2560usize)
    } else if name == "GeForce GTX 2060"@ {
        Some(1920usize)
    } else if name == "GeForce GTX 1660 Ti"@ {
        Some(1536usize)
    } else if name == "GeForce GTX 1060"@ {
        Some(1280usize)
    } else if name == "GeForce GTX 1650 SUPER"@ {
        Some(1280usize)
    } else if name == "GeForce GTX 1650"@ {
        Some(896usize)
    } else {
        None
    }
}

/// The number of cores that the custom list gives for a kind of device:
/// that of the last entry with the name.
pub open spec fn custom_core_count(custom: Seq<(String, usize)>, name: Seq<char>) -> Option<usize>
    decreases custom.len(),
{
    if custom.len() == 0 {
        None
    } else if custom.last().0@ == name {
        Some(custom.last().1)
    } else {
        custom_core_count(custom.drop_last(), name)
    }
}

/// The number of cores of a kind of device: what the custom list says, and
/// where it says nothing, what is known from the start.
pub open spec fn core_count(custom: Seq<(String, usize)>, name: Seq<char>) -> Option<usize> {
    match custom_core_count(custom, name) {
        Some(cores) => Some(cores),
        None => builtin_core_count(name),
    }
}

fn default_core_count(name: &str) -> (cores: Option<usize>)
    ensures
        cores == builtin_core_count(name@),
{
    if str_eq(name, "TITAN RTX") {
        Some(4608)
    } else if str_eq(name, "Tesla V100") {
        Some(5120)
    } else if str_eq(name, "Tesla P100") {
        Some(3584)
    } else if str_eq(name, "GeForce RTX 2080 Ti") {
        Some(4352)
    } else if str_eq(name, "GeForce RTX 2080 SUPER") {
        Some(3072)
    } else if str_eq(name, "GeForce RTX 2080") {
        Some(2944)
    } else if str_eq(name, "GeForce RTX 2070 SUPER") {
        Some(2560)
    } else if str_eq(name, "GeForce GTX 1080 Ti") {
        Some(3584)
    } else if str_eq(name, "GeForce GTX 1080") {
        Some(2560)
    } else if str_eq(name, "GeForce GTX 2060") {
        Some(1920)
    } else if str_eq(name, "GeForce GTX 1660 Ti") {
        Some(1536)
    } else if str_eq(name, "GeForce GTX 1060") {
        Some(1280)
    } else if str_eq(name, "GeForce GTX 1650 SUPER") {
        Some(1280)
    } else if str_eq(name, "GeForce GTX 1650") {
        Some(896)
    } else {
        None
    }
}

/// The number of cores of the device with the given name. A device of a
/// kind that neither the custom list nor the list known from the start
/// holds is unknown.
pub fn get_core_count(name: &str, custom: &Vec<(String, usize)>) -> (r: Result<usize, GPUError>)
    ensures
        match r {
            Ok(cores) => core_count(custom@, name@) == Some(cores),
            Err(e) => core_count(custom@, name@).is_none() && e.msg@ == "Device unknown!"@,
        },
{
    let mut i: usize = custom.len();
    proof {
        assert(custom@.subrange(0, i as int) =~= custom@);
    }
    while i > 0
        invariant
            i <= custom.len(),
            custom_core_count(custom@, name@) == custom_core_count(
                custom@.subrange(0, i as int),
                name@,
            ),
        decreases i,
    {
        i -= 1;
        proof {
            let upto = custom@.subrange(0, i + 1);
            assert(upto.drop_last() =~= custom@.subrange(0, i as int));
        }
        if str_eq(custom[i].0.as_str(), name) {
            return Ok(custom[i].1);
        }
    }
    match default_core_count(name) {
        Some(cores) => Ok(cores),
        None => Err(failure("Device unknown!")),
    }
}

/// The place of the wanted platform among those that the machine has.
/// `names` holds the name of each platform, or nothing where a platform
/// would not tell its name.
pub open spec fn platform_index(names: Seq<Option<String>>, wanted: Seq<char>, n: int) -> Option<
    int,
>
    decreases n,
{
    if n <= 0 {
        None
    } else {
        match platform_index(names, wanted, n - 1) {
            Some(i) => Some(i),
            None => if names[n - 1].is_some() && names[n - 1].unwrap()@ == wanted {
                Some(n - 1)
            } else {
                None
            },
        }
    }
}

/// The first platform with the wanted name. None is looked for where the
/// accelerator is disabled.
pub fn find_platform(disabled: bool, names: &Vec<Option<String>>, wanted: &str) -> (r: Result<
    usize,
    GPUError,
>)
    ensures
        match r {
            Ok(i) => !disabled && platform_index(names@, wanted@, names@.len() as int) == Some(
                i as int,
            ),
            Err(e) => if disabled {
                e.msg@ == "GPU accelerator is disabled!"@
            } else {
                platform_index(names@, wanted@, names@.len() as int).is_none() && e.msg@
                    == "GPU platform not found!"@
            },
        },
{
    if disabled {
        return Err(failure("GPU accelerator is disabled!"));
    }
    let mut i: usize = 0;
    while i < names.len()
        invariant
            !disabled,
            i <= names.len(),
            platform_index(names@, wanted@, i as int).is_none(),
        decreases names.len() - i,
    {
        let found = match &names[i] {
            Some(name) => str_eq(name.as_str(), wanted),
            None => false,
        };
        if found {
            proof {
                lemma_platform_index_sticks(names@, wanted@, i + 1, names@.len() as int);
            }
            return Ok(i);
        }
        i += 1;
    }
    Err(failure("GPU platform not found!"))
}

/// A platform once found stays the one found.
proof fn lemma_platform_index_sticks(names: Seq<Option<String>>, wanted: Seq<char>, i: int, n: int)
    requires
        i <= n,
        platform_index(names, wanted, i).is_some(),
    ensures
        platform_index(names, wanted, n) == platform_index(names, wanted, i),
    decreases n - i,
{
    if i < n {
        lemma_platform_index_sticks(names, wanted, i, n - 1);
    }
}

} // verus!
