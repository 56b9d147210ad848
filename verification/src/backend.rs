//! Which display backend the compositor starts on.
use vstd::prelude::*;

use crate::text::str_eq;

verus! {

/// The display backends.
#[derive(Debug, Clone, Copy, PartialEq, Eq, Structural)]
pub enum Backend {
    /// Native DRM/KMS on a TTY.
    Udev,
    /// A nested window inside another session.
    Winit,
}

/// The backend to start: the one requested by name (`"udev"` or
/// `"winit"`), otherwise the native one unless we run inside another
/// graphical session (`nested`: `WAYLAND_DISPLAY` or `DISPLAY` is set).
pub open spec fn spec_choose_backend(requested: Option<Seq<char>>, nested: bool) -> Backend {
    match requested {
        Some(r) if r == "udev"@ => Backend::Udev,
        Some(r) if r == "winit"@ => Backend::Winit,
        _ => if nested {
            Backend::Winit
        } else {
            Backend::Udev
        },
    }
}

/// Chooses the backend (see [`spec_choose_backend`]).
pub fn choose_backend(requested: Option<&str>, nested: bool) -> (b: Backend)
    ensures
        b == spec_choose_backend(
            match requested {
                Some(r) => Some(r@),
                None => None,
            },
            nested,
        ),
{
    match requested {
        Some(r) => {
            if str_eq(r, "udev") {
                return Backend::Udev;
            }
            if str_eq(r, "winit") {
                return Backend::Winit;
            }
        },
        None => {},
    }
    if nested {
        Backend::Winit
    } else {
        Backend::Udev
    }
}

/// The value given to the first `--backend` flag of the command line:
/// the argument right after it, if there is one.
pub open spec fn spec_backend_arg(args: Seq<String>) -> Option<String> {
    if exists|i: int| 0 <= i < args.len() && #[trigger] args[i]@ == "--backend"@ {
        let i = choose|i: int|
            0 <= i < args.len() && #[trigger] args[i]@ == "--backend"@ && forall|j: int|
                0 <= j < i ==> (#[trigger] args[j])@ != "--backend"@;
        if i + 1 < args.len() {
            Some(args[i + 1])
        } else {
            None
        }
    } else {
        None
    }
}

/// Finds the value of the `--backend` flag (see [`spec_backend_arg`]).
pub fn backend_arg(args: &Vec<String>) -> (r: Option<String>)
    ensures
        r == spec_backend_arg(args@),
{
    let mut i: usize = 0;
    while i < args.len()
        invariant
            i <= args@.len(),
            forall|j: int| 0 <= j < i ==> (#[trigger] args@[j])@ != "--backend"@,
        decreases args@.len() - i,
    {
        if str_eq(args[i].as_str(), "--backend") {
            proof {
                let k = choose|k: int|
                    0 <= k < args@.len() && #[trigger] args@[k]@ == "--backend"@ && forall|j: int|
                        0 <= j < k ==> (#[trigger] args@[j])@ != "--backend"@;
                assert(0 <= i < args@.len() && args@[i as int]@ == "--backend"@ && forall|j: int|
                    0 <= j < i ==> (#[trigger] args@[j])@ != "--backend"@);
                if k < i {
                    assert(args@[k]@ != "--backend"@);
                } else if k > i {
                    assert(args@[i as int]@ != "--backend"@);
                }
            }
            if i + 1 < args.len() {
                return Some(args[i + 1].clone());
            } else {
                return None;
            }
        }
        i = i + 1;
    }
    None
}

} // verus!
