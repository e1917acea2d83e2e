//! Reading the jack controls of a sound card: which controls are jacks, what
//! device each one is for, and the line that reports its state.
use vstd::prelude::*;

verus! {

pub open spec fn ends_with(s: Seq<char>, suffix: Seq<char>) -> bool {
    s.len() >= suffix.len() && s.subrange(s.len() - suffix.len(), s.len() as int) == suffix
}

/// What a sound card control is, judged by its name.
#[derive(Debug)]
pub enum JackKind {
    /// Not a jack.
    NotAJack,
    /// A phantom jack, whose device is always present; holds the device's name.
    AlwaysPresent(String),
    /// A jack that is plugged in or not; holds the device's name.
    Switched(String),
}

/// The kind of a control named `name`: a name ending in ` Phantom Jack` is a
/// phantom jack, any other ending in ` Jack` a switched one; the device's
/// name is what precedes that ending.
pub open spec fn jack_kind_of(name: Seq<char>) -> JackKindView {
    if !ends_with(name, " Jack"@) {
        JackKindView::NotAJack
    } else if ends_with(name, " Phantom Jack"@) {
        JackKindView::AlwaysPresent(name.subrange(0, name.len() - 13))
    } else {
        JackKindView::Switched(name.subrange(0, name.len() - 5))
    }
}

/// `JackKind` with the device's name as characters.
pub enum JackKindView {
    NotAJack,
    AlwaysPresent(Seq<char>),
    Switched(Seq<char>),
}

impl View for JackKind {
    type V = JackKindView;

    open spec fn view(&self) -> JackKindView {
        match self {
            JackKind::NotAJack => JackKindView::NotAJack,
            JackKind::AlwaysPresent(d) => JackKindView::AlwaysPresent(d@),
            JackKind::Switched(d) => JackKindView::Switched(d@),
        }
    }
}

/// A name ending in ` Phantom Jack` is always a phantom jack of the device
/// named by the rest, whatever its length; a name ending in ` Jack` otherwise
/// is a switched jack of the device named by the rest; any other name is no jack.
pub proof fn lemma_jack_kinds(name: Seq<char>)
    ensures
        !ends_with(name, " Jack"@) ==> jack_kind_of(name) == JackKindView::NotAJack,
        ends_with(name, " Phantom Jack"@) ==> jack_kind_of(name) == JackKindView::AlwaysPresent(
            name.subrange(0, name.len() - 13),
        ),
        ends_with(name, " Jack"@) && !ends_with(name, " Phantom Jack"@) ==> jack_kind_of(name)
            == JackKindView::Switched(name.subrange(0, name.len() - 5)),
{
    reveal_strlit(" Phantom Jack");
    reveal_strlit(" Jack");
    if ends_with(name, " Phantom Jack"@) {
        let n = name.len();
        assert(name.subrange(n - 5, n as int) =~= name.subrange(n - 13, n as int).subrange(8, 13));
        assert(" Phantom Jack"@.subrange(8, 13) =~= " Jack"@);
        assert(ends_with(name, " Jack"@));
    }
}

/// Whether `s` ends with `suffix`.
pub fn has_suffix(s: &str, suffix: &str) -> (r: bool)
    ensures
        r == ends_with(s@, suffix@),
{
    let n = s.unicode_len();
    let m = suffix.unicode_len();
    if n < m {
        return false;
    }
    let mut i: usize = 0;
    while i < m
        invariant
            n == s@.len(),
            m == suffix@.len(),
            m <= n,
            i <= m,
            forall|j: int| 0 <= j < i ==> s@[n - m + j] == suffix@[j],
        decreases m - i,
    {
        if s.get_char(n - m + i) != suffix.get_char(i) {
            proof {
                assert(s@.subrange(n - m, n as int)[i as int] == s@[n - m + i]);
            }
            return false;
        }
        i = i + 1;
    }
    assert(s@.subrange(n - m, n as int) =~= suffix@);
    true
}

/// Classifies a sound card control by its name.
pub fn jack_kind(name: &str) -> (r: JackKind)
    ensures
        r@ == jack_kind_of(name@),
        !ends_with(name@, " Jack"@) ==> r@ == JackKindView::NotAJack,
        ends_with(name@, " Phantom Jack"@) ==> r@ == JackKindView::AlwaysPresent(
            name@.subrange(0, name@.len() - 13),
        ),
        ends_with(name@, " Jack"@) && !ends_with(name@, " Phantom Jack"@) ==> r@
            == JackKindView::Switched(name@.subrange(0, name@.len() - 5)),
{
    proof {
        lemma_jack_kinds(name@);
    }
    if !has_suffix(name, " Jack") {
        return JackKind::NotAJack;
    }
    let n = name.unicode_len();
    if has_suffix(name, " Phantom Jack") {
        proof {
            reveal_strlit(" Phantom Jack");
        }
        let device = String::from_str(name.substring_char(0, n - 13));
        JackKind::AlwaysPresent(device)
    } else {
        proof {
            reveal_strlit(" Jack");
        }
        let device = String::from_str(name.substring_char(0, n - 5));
        JackKind::Switched(device)
    }
}

/// `<device> is always present`.
pub fn always_present_line(device: &str) -> (r: String)
    ensures
        r@ == device@ + " is always present"@,
{
    let mut line = String::from_str(device);
    line.append(" is always present");
    line
}

/// `<device> is plugged in` or `<device> is unplugged`.
pub fn plug_state_line(device: &str, plugged: bool) -> (r: String)
    ensures
        r@ == device@ + " is "@ + (if plugged { "plugged in"@ } else { "unplugged"@ }),
{
    let mut line = String::from_str(device);
    line.append(" is ");
    if plugged {
        line.append("plugged in");
    } else {
        line.append("unplugged");
    }
    line
}

} // verus!
