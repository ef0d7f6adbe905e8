//! Substitution of the event placeholders in user-supplied strings.
use vstd::prelude::*;
use crate::events::{event_name, UPSEvent};
use crate::text::to_chars;

verus! {

/// `s` with every occurrence of `pat` replaced by `rep`, scanning from the left
pub open spec fn replaced(s: Seq<char>, pat: Seq<char>, rep: Seq<char>) -> Seq<char>
    decreases s.len(),
{
    if s.len() == 0 {
        s
    } else if pat.len() > 0 && pat.len() <= s.len() && s.take(pat.len() as int) == pat {
        rep + replaced(s.skip(pat.len() as int), pat, rep)
    } else {
        seq![s[0]] + replaced(s.skip(1), pat, rep)
    }
}

pub open spec fn label_key(e: UPSEvent) -> Seq<char> {
    "event."@ + event_name(e) + ".label"@
}

pub open spec fn description_key(e: UPSEvent) -> Seq<char> {
    "event."@ + event_name(e) + ".description"@
}

pub open spec fn event_placeholder() -> Seq<char> {
    "{OGUARD_EVENT}"@
}

pub open spec fn name_placeholder() -> Seq<char> {
    "{OGUARD_EVENT_NAME}"@
}

pub open spec fn description_placeholder() -> Seq<char> {
    "{OGUARD_EVENT_DESCRIPTION}"@
}

/// `s` with the event placeholders replaced, in the order event name, label
/// key, description key
pub open spec fn with_placeholders(e: UPSEvent, s: Seq<char>) -> Seq<char> {
    replaced(
        replaced(replaced(s, event_placeholder(), event_name(e)), name_placeholder(), label_key(e)),
        description_placeholder(),
        description_key(e),
    )
}

/// Whether `pat` occurs in `s` at `i`
pub fn occurs_at(s: &Vec<char>, i: usize, pat: &Vec<char>) -> (r: bool)
    requires
        i <= s.len(),
    ensures
        r == (pat.len() <= s.len() - i && s@.subrange(i as int, i + pat.len()) == pat@),
{
    if pat.len() > s.len() - i {
        return false;
    }
    let mut k: usize = 0;
    while k < pat.len()
        invariant
            pat.len() <= s.len() - i,
            k <= pat.len(),
            forall|j: int| 0 <= j < k ==> s@[i + j] == pat@[j],
        decreases pat.len() - k,
    {
        if s[i + k] != pat[k] {
            assert(s@.subrange(i as int, i + pat.len())[k as int] != pat@[k as int]);
            return false;
        }
        k += 1;
    }
    assert(s@.subrange(i as int, i + pat.len()) =~= pat@);
    true
}

/// Replaces every occurrence of `pat` in `s` by `rep`
pub fn replace_all(s: &str, pat: &str, rep: &str) -> (r: String)
    ensures
        r@ == replaced(s@, pat@, rep@),
{
    let chars = to_chars(s);
    let pchars = to_chars(pat);
    let mut out = String::new();
    let mut i: usize = 0;
    assert(s@.skip(0) =~= s@);
    assert(out@ + replaced(s@, pat@, rep@) =~= replaced(s@, pat@, rep@));
    while i < chars.len()
        invariant
            chars@ == s@,
            pchars@ == pat@,
            i <= chars.len(),
            out@ + replaced(s@.skip(i as int), pat@, rep@) == replaced(s@, pat@, rep@),
        decreases chars.len() - i,
    {
        let ghost rest = s@.skip(i as int);
        if pchars.len() > 0 && occurs_at(&chars, i, &pchars) {
            proof {
                assert(rest.take(pat@.len() as int) =~= s@.subrange(i as int, i + pat@.len()));
                assert(rest.skip(pat@.len() as int) =~= s@.skip(i + pat@.len()));
                assert(out@ + rep@ + replaced(rest.skip(pat@.len() as int), pat@, rep@)
                    =~= out@ + (rep@ + replaced(rest.skip(pat@.len() as int), pat@, rep@)));
            }
            out.append(rep);
            i = i + pchars.len();
        } else {
            proof {
                if pat@.len() > 0 && pat@.len() <= rest.len() {
                    assert(rest.take(pat@.len() as int) =~= s@.subrange(i as int, i + pat@.len()));
                }
                assert(rest.skip(1) =~= s@.skip(i + 1));
                assert(rest[0] == s@[i as int]);
            }
            let one = s.substring_char(i, i + 1);
            proof {
                assert(one@ =~= seq![rest[0]]);
                assert(out@ + one@ + replaced(rest.skip(1), pat@, rep@)
                    =~= out@ + (seq![rest[0]] + replaced(rest.skip(1), pat@, rep@)));
            }
            out.append(one);
            i = i + 1;
        }
    }
    proof {
        assert(s@.skip(i as int).len() == 0);
        assert(out@ + replaced(s@.skip(i as int), pat@, rep@) =~= out@);
    }
    out
}

/// `prefix + middle + suffix`
fn join3(prefix: &str, middle: &str, suffix: &str) -> (r: String)
    ensures
        r@ == prefix@ + middle@ + suffix@,
{
    let mut r = String::from_str(prefix);
    r.append(middle);
    r.append(suffix);
    r
}

impl UPSEvent {
    /// Localization key of the event's label
    pub fn label_key(&self) -> (r: String)
        ensures
            r@ == label_key(*self),
    {
        join3("event.", self.name(), ".label")
    }

    /// Localization key of the event's description
    pub fn description_key(&self) -> (r: String)
        ensures
            r@ == description_key(*self),
    {
        join3("event.", self.name(), ".description")
    }
}

/// Replaces the placeholders `{OGUARD_EVENT}`, `{OGUARD_EVENT_NAME}` and
/// `{OGUARD_EVENT_DESCRIPTION}` by the event's name, label key and
/// description key
pub fn replace_event_placeholders(event: UPSEvent, value: &str) -> (r: String)
    ensures
        r@ == with_placeholders(event, value@),
{
    let a = replace_all(value, "{OGUARD_EVENT}", event.name());
    let label = event.label_key();
    let b = replace_all(a.as_str(), "{OGUARD_EVENT_NAME}", label.as_str());
    let description = event.description_key();
    replace_all(b.as_str(), "{OGUARD_EVENT_DESCRIPTION}", description.as_str())
}

} // verus!
