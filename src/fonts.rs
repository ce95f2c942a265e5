//! Which installed font families the settings page offers.
use vstd::prelude::*;
use vstd::string::StringSliceAdditionalSpecFns;
use vstd::utf8::encode_utf8;

verus! {

/// The lowercase form of a text.
pub uninterp spec fn lower_of(s: Seq<char>) -> Seq<char>;

/// Relies on `str::to_lowercase`: the lowercase form depends on the
/// characters alone.
#[verifier::external_body]
fn lowercase(s: &str) -> (r: String)
    ensures
        r@ == lower_of(s@),
{
    s.to_lowercase()
}

/// `a` comes before `b`, or equals it, byte by byte.
pub open spec fn bytes_le(a: Seq<u8>, b: Seq<u8>) -> bool
    decreases a.len(),
{
    if a.len() == 0 {
        true
    } else if b.len() == 0 {
        false
    } else if a[0] != b[0] {
        a[0] < b[0]
    } else {
        bytes_le(a.subrange(1, a.len() as int), b.subrange(1, b.len() as int))
    }
}

/// The UTF-8 bytes of a text.
pub open spec fn utf8(s: Seq<char>) -> Seq<u8> {
    encode_utf8(s)
}

/// Relies on `slice::sort` on `String`s: the same names, in the order of
/// `Ord for String`, which compares the UTF-8 bytes lexicographically.
#[verifier::external_body]
fn sort_names(v: &mut Vec<String>)
    ensures
        final(v)@.to_multiset() == old(v)@.to_multiset(),
        forall|i: int, j: int|
            0 <= i < j < final(v)@.len() ==> bytes_le(utf8(#[trigger] final(v)@[i]@), utf8(#[trigger] final(v)@[j]@)),
{
    v.sort();
}

/// `n` occurs in `h` as a run of consecutive bytes.
pub open spec fn has_run(h: Seq<u8>, n: Seq<u8>) -> bool {
    exists|i: int| 0 <= i && i + n.len() <= h.len() && #[trigger] h.subrange(i, i + n.len()) == n
}

fn contains_run(h: &[u8], n: &[u8]) -> (r: bool)
    ensures
        r == has_run(h@, n@),
{
    if n.len() > h.len() {
        return false;
    }
    let last = h.len() - n.len();
    let mut i: usize = 0;
    while i <= last
        invariant
            last == h@.len() - n@.len(),
            h@.len() <= usize::MAX,
            forall|k: int| 0 <= k < i ==> #[trigger] h@.subrange(k, k + n@.len()) != n@,
        ensures
            forall|k: int| 0 <= k <= last ==> #[trigger] h@.subrange(k, k + n@.len()) != n@,
        decreases last + 1 - i,
    {
        let mut j: usize = 0;
        let mut same = true;
        while j < n.len()
            invariant
                j <= n@.len(),
                i <= last,
                last == h@.len() - n@.len(),
                h@.len() <= usize::MAX,
                same <==> forall|t: int| 0 <= t < j ==> h@[i + t] == n@[t],
            decreases n@.len() - j,
        {
            if h[i + j] != n[j] {
                same = false;
            }
            j = j + 1;
        }
        if same {
            assert(h@.subrange(i as int, i + n@.len()) =~= n@);
            return true;
        }
        assert(h@.subrange(i as int, i + n@.len()) != n@) by {
            let t = choose|t: int| 0 <= t < n@.len() && h@[i + t] != n@[t];
            assert(h@.subrange(i as int, i + n@.len())[t] != n@[t]);
        }
        if i == last {
            break;
        }
        i = i + 1;
    }
    false
}

/// Words that mark symbol, icon, fallback and other unsuitable families.
pub open spec fn blocked_words() -> Seq<Seq<char>> {
    seq![
        "Emoji"@, "Dingbats"@, "Symbol"@, "Webdings"@, "Wingdings"@, "Nerd"@, "Extra"@, "System"@,
        "Braille"@, "Private"@, "Bitmap"@, "LastResort"@, "Fallback"@, "STIX"@, "Math"@, "Music"@,
        "General"@, "icon"@, "GB18030"@, "Zalgo"@, "SANS"@, "SERIF"@, "MONO"@, "Fixed"@,
        "Terminal"@, "NISC"@, "Kacst"@, "Lohit"@, "Tibetan"@,
    ]
}

/// Blocked word `k` occurs in the lowercase name `lower`.
pub open spec fn rules_out(lower: Seq<char>, k: int) -> bool {
    has_run(utf8(lower), utf8(lower_of(blocked_words()[k])))
}

/// "UI" also marks interface fonts, but spares the Segoe and San Francisco families.
pub open spec fn ui_rules_out(lower: Seq<char>) -> bool {
    &&& has_run(utf8(lower), utf8(lower_of("UI"@)))
    &&& !(has_run(utf8(lower), utf8("segoe"@)) || has_run(utf8(lower), utf8("san francisco"@)))
}

/// A family is offered unless it is hidden (its name starts with a dot) or a
/// blocked word occurs in its lowercase name.
pub open spec fn font_offered(name: Seq<char>) -> bool {
    &&& !(utf8(name).len() > 0 && utf8(name)[0] == 46u8)
    &&& forall|k: int| 0 <= k < blocked_words().len() ==> !#[trigger] rules_out(lower_of(name), k)
    &&& !ui_rules_out(lower_of(name))
}

/// The offered families among the first `n` of `names`, in their order.
pub open spec fn offered_upto(names: Seq<String>, n: int) -> Seq<String>
    decreases n,
{
    if n <= 0 {
        seq![]
    } else if font_offered(names[n - 1]@) {
        offered_upto(names, n - 1).push(names[n - 1])
    } else {
        offered_upto(names, n - 1)
    }
}

fn is_offered(name: &String) -> (r: bool)
    ensures
        r == font_offered(name@),
{
    let bytes = name.as_str().as_bytes();
    if bytes.len() > 0 && bytes[0] == 46u8 {
        return false;
    }
    let words: [&str; 29] = [
        "Emoji", "Dingbats", "Symbol", "Webdings", "Wingdings", "Nerd", "Extra", "System",
        "Braille", "Private", "Bitmap", "LastResort", "Fallback", "STIX", "Math", "Music",
        "General", "icon", "GB18030", "Zalgo", "SANS", "SERIF", "MONO", "Fixed",
        "Terminal", "NISC", "Kacst", "Lohit", "Tibetan",
    ];
    assert(Seq::new(29, |i: int| words@[i]@) =~= blocked_words());
    let lower = lowercase(name.as_str());
    let lower_bytes = lower.as_str().as_bytes();
    let segoe = "segoe";
    let apple = "san francisco";
    let mut k: usize = 0;
    while k < 29
        invariant
            k <= 29,
            words@.len() == 29,
            Seq::new(29, |i: int| words@[i]@) == blocked_words(),
            lower@ == lower_of(name@),
            lower_bytes@ == utf8(lower@),
            segoe@ == "segoe"@,
            apple@ == "san francisco"@,
            forall|t: int| 0 <= t < k ==> !#[trigger] rules_out(lower_of(name@), t),
        decreases 29 - k,
    {
        let word = words[k];
        assert(word@ == Seq::new(29, |i: int| words@[i]@)[k as int]);
        let word_lower = lowercase(word);
        if contains_run(lower_bytes, word_lower.as_str().as_bytes()) {
            assert(rules_out(lower_of(name@), k as int));
            return false;
        }
        k = k + 1;
    }
    let ui_lower = lowercase("UI");
    if contains_run(lower_bytes, ui_lower.as_str().as_bytes()) {
        let spared = contains_run(lower_bytes, segoe.as_bytes()) || contains_run(lower_bytes, apple.as_bytes());
        if !spared {
            return false;
        }
    }
    true
}

/// The families worth offering, sorted by name.
pub fn filter_font_families(families: Vec<String>) -> (r: Vec<String>)
    ensures
        r@.to_multiset() == offered_upto(families@, families@.len() as int).to_multiset(),
        forall|i: int, j: int| 0 <= i < j < r@.len() ==> bytes_le(utf8(#[trigger] r@[i]@), utf8(#[trigger] r@[j]@)),
{
    let mut kept: Vec<String> = Vec::new();
    let mut i: usize = 0;
    while i < families.len()
        invariant
            i <= families@.len(),
            kept@ == offered_upto(families@, i as int),
        decreases families@.len() - i,
    {
        if is_offered(&families[i]) {
            kept.push(families[i].clone());
        }
        i = i + 1;
    }
    sort_names(&mut kept);
    kept
}

} // verus!
