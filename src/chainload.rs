//! Choosing an EFI application to chainload from a FAT volume, when the
//! drive holds no Btrfs volume.
use vstd::prelude::*;
use vstd::string::StrSliceExecFns;

verus! {

broadcast use vstd::string::group_string_axioms;

/// What `str::to_lowercase` makes of some text.
pub uninterp spec fn lower_of(s: Seq<char>) -> Seq<char>;

/// Relies on `str::to_lowercase`: the result depends on the characters
/// alone.
#[verifier::external_body]
fn lowercase(s: &str) -> (r: String)
    ensures
        r@ == lower_of(s@),
{
    s.to_lowercase()
}

pub open spec fn occurs_at(h: Seq<char>, n: Seq<char>, i: int) -> bool {
    0 <= i && i + n.len() <= h.len() && h.subrange(i, i + n.len()) == n
}

pub open spec fn contains_text(h: Seq<char>, n: Seq<char>) -> bool {
    exists|i: int| occurs_at(h, n, i)
}

pub open spec fn ends_with_text(h: Seq<char>, n: Seq<char>) -> bool {
    n.len() <= h.len() && h.subrange(h.len() - n.len(), h.len() as int) == n
}

fn occurs_at_exec(h: &str, n: &str, i: usize) -> (r: bool)
    requires
        i + n@.len() <= h@.len(),
    ensures
        r == occurs_at(h@, n@, i as int),
{
    let len = n.unicode_len();
    let hl = h.unicode_len();
    let mut k: usize = 0;
    while k < len
        invariant
            len == n@.len(),
            hl == h@.len(),
            i + len <= hl,
            0 <= k <= len,
            forall|t: int| 0 <= t < k ==> #[trigger] h@[i + t] == n@[t],
        decreases len - k,
    {
        if h.get_char(i + k) != n.get_char(k) {
            proof {
                assert(h@.subrange(i as int, i + len)[k as int] != n@[k as int]);
            }
            return false;
        }
        k = k + 1;
    }
    assert forall|t: int| 0 <= t < len implies h@.subrange(i as int, i + len)[t] == n@[t] by {
        assert(h@[i + t] == n@[t]);
    }
    assert(h@.subrange(i as int, i + len) =~= n@);
    true
}

/// Whether `n` occurs in `h`.
pub fn contains_str(h: &str, n: &str) -> (r: bool)
    ensures
        r == contains_text(h@, n@),
{
    let hl = h.unicode_len();
    let nl = n.unicode_len();
    if nl > hl {
        return false;
    }
    let mut i: usize = 0;
    while i <= hl - nl
        invariant
            hl == h@.len(),
            nl == n@.len(),
            nl <= hl,
            0 <= i <= hl - nl,
            forall|j: int| 0 <= j < i ==> !occurs_at(h@, n@, j),
        ensures
            forall|j: int| 0 <= j <= hl - nl ==> !occurs_at(h@, n@, j),
        decreases hl - nl - i,
    {
        if occurs_at_exec(h, n, i) {
            return true;
        }
        if i == hl - nl {
            break;
        }
        i = i + 1;
    }
    assert forall|j: int| !occurs_at(h@, n@, j) by {
        if 0 <= j <= hl - nl {
        }
    }
    false
}

/// Whether `h` ends with `n`.
pub fn ends_with_str(h: &str, n: &str) -> (r: bool)
    ensures
        r == ends_with_text(h@, n@),
{
    let hl = h.unicode_len();
    let nl = n.unicode_len();
    if nl > hl {
        return false;
    }
    let r = occurs_at_exec(h, n, hl - nl);
    r
}

/// Whether a file name names an EFI application: it ends in `.efi`, in
/// any case.
pub fn is_efi_app(name: &str) -> (r: bool)
    ensures
        r == ends_with_text(lower_of(name@), ".efi"@),
{
    let lower = lowercase(name);
    ends_with_str(lower.as_str(), ".efi")
}

/// `prefix\name`.
pub fn child_path(prefix: &str, name: &str) -> (r: String)
    ensures
        r@ == prefix@ + "\\"@ + name@,
{
    let mut s = String::new();
    s.append(prefix);
    s.append("\\");
    s.append(name);
    assert(s@ =~= prefix@ + "\\"@ + name@);
    s
}

/// An EFI application found on the volume: its full path and its file
/// name.
pub struct EfiApp {
    pub path: String,
    pub name: String,
}

pub open spec fn is_quibble(a: EfiApp) -> bool {
    contains_text(lower_of(a.name@), "quibble.efi"@)
}

pub open spec fn is_boot_manager(a: EfiApp) -> bool {
    contains_text(lower_of(a.path@), "bootx64.efi"@) || contains_text(lower_of(a.path@), "bootmgfw.efi"@)
}

/// The last Quibble loader among the first `n` applications.
pub open spec fn last_quibble(apps: Seq<EfiApp>, n: int) -> Option<int>
    decreases n,
{
    if n <= 0 {
        None
    } else if is_quibble(apps[n - 1]) {
        Some(n - 1)
    } else {
        last_quibble(apps, n - 1)
    }
}

/// The first boot manager from application `i` on.
pub open spec fn first_boot_manager(apps: Seq<EfiApp>, i: int) -> Option<int>
    decreases apps.len() - i,
{
    if i < 0 || i >= apps.len() {
        None
    } else if is_boot_manager(apps[i]) {
        Some(i)
    } else {
        first_boot_manager(apps, i + 1)
    }
}

/// Quibble if present, else the first Windows or removable-media boot
/// manager, else the first application.
pub open spec fn chainload_choice(apps: Seq<EfiApp>) -> Option<int> {
    match last_quibble(apps, apps.len() as int) {
        Some(i) => Some(i),
        None => match first_boot_manager(apps, 0) {
            Some(i) => Some(i),
            None => if apps.len() > 0 { Some(0) } else { None },
        },
    }
}

pub fn choose_chainload_target(apps: &Vec<EfiApp>) -> (r: Option<usize>)
    ensures
        match r {
            Some(i) => chainload_choice(apps@) == Some(i as int),
            None => chainload_choice(apps@).is_none(),
        },
{
    let mut i: usize = apps.len();
    while i > 0
        invariant
            0 <= i <= apps@.len(),
            last_quibble(apps@, apps@.len() as int) == last_quibble(apps@, i as int),
        decreases i,
    {
        let lower = lowercase(apps[i - 1].name.as_str());
        if contains_str(lower.as_str(), "quibble.efi") {
            return Some(i - 1);
        }
        i = i - 1;
    }
    let mut j: usize = 0;
    while j < apps.len()
        invariant
            0 <= j <= apps@.len(),
            last_quibble(apps@, apps@.len() as int).is_none(),
            first_boot_manager(apps@, 0) == first_boot_manager(apps@, j as int),
        decreases apps@.len() - j,
    {
        let lower = lowercase(apps[j].path.as_str());
        if contains_str(lower.as_str(), "bootx64.efi") || contains_str(lower.as_str(), "bootmgfw.efi") {
            return Some(j);
        }
        j = j + 1;
    }
    if apps.len() > 0 {
        Some(0)
    } else {
        None
    }
}

} // verus!
