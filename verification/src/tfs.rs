use vstd::prelude::*;

verus! {

/// One text slot of a raw test step, as the work-item tracker stores it.
pub struct ParameterizedString {
    pub value: String,
}

/// A raw test step: its kind and its texts; the first text is the action,
/// the second the expected outcome.
pub struct StepRaw {
    pub step_type: String,
    pub texts: Vec<ParameterizedString>,
}

/// The raw step list of one work item.
pub struct StepsRaw {
    pub steps: Vec<StepRaw>,
}

/// One step reduced to plain text: markup decoded and tags dropped.
pub struct StepSimplified {
    pub step: String,
    pub expected: String,
}

/// A work item reduced to what the pipeline reports: identity, title, link
/// and the simplified steps.
pub struct ParsedWorkItem {
    pub id: i32,
    pub title: String,
    pub web_link: String,
    pub steps: Vec<StepSimplified>,
}

/// What decoding HTML character references leaves of a text; the result is a
/// function of the characters alone.
pub uninterp spec fn decoded_of(s: Seq<char>) -> Seq<char>;

/// Relies on html_escape::decode_html_entities: decodes exact named and
/// numeric character references ending in ';'. Every reference starts with
/// '&', so text without '&' comes back unchanged.
#[verifier::external_body]
fn decode_entities(s: &str) -> (r: String)
    ensures
        r@ == decoded_of(s@),
        !s@.contains('&') ==> r@ == s@,
{
    html_escape::decode_html_entities(s).into_owned()
}

/// Relies on str::chars: the characters of the string, in order.
#[verifier::external_body]
fn chars_of(s: &str) -> (v: Vec<char>)
    ensures
        v@ == s@,
{
    s.chars().collect()
}

/// Relies on String's FromIterator over char: collecting characters yields
/// the string of exactly those characters.
#[verifier::external_body]
fn string_from_chars(v: &Vec<char>) -> (s: String)
    ensures
        s@ == v@,
{
    v.iter().copied().collect()
}

/// Index of the first '>' in `s`, or -1 when there is none.
pub open spec fn find_gt(s: Seq<char>) -> int
    decreases s.len(),
{
    if s.len() == 0 {
        -1
    } else if s[0] == '>' {
        0
    } else {
        let rest = find_gt(s.skip(1));
        if rest == -1 {
            -1
        } else {
            rest + 1
        }
    }
}

/// The first '>' is in range, is a '>', and nothing before it is one.
pub proof fn lemma_find_gt(s: Seq<char>)
    ensures
        find_gt(s) == -1 ==> forall|i: int| 0 <= i < s.len() ==> s[i] != '>',
        find_gt(s) != -1 ==> {
            let j = find_gt(s);
            &&& 0 <= j < s.len()
            &&& s[j] == '>'
            &&& forall|i: int| 0 <= i < j ==> s[i] != '>'
        },
    decreases s.len(),
{
    if s.len() > 0 && s[0] != '>' {
        let rest = find_gt(s.skip(1));
        lemma_find_gt(s.skip(1));
        if rest == -1 {
            assert forall|i: int| 0 <= i < s.len() implies s[i] != '>' by {
                if i > 0 {
                    assert(s.skip(1)[i - 1] == s[i]);
                }
            }
        } else {
            assert(s.skip(1)[rest] == s[rest + 1]);
            assert forall|i: int| 0 <= i < rest + 1 implies s[i] != '>' by {
                if i > 0 {
                    assert(s.skip(1)[i - 1] == s[i]);
                }
            }
        }
    }
}

/// What tag stripping leaves of a text: each span from a '<' to the next '>'
/// goes, leftmost first; a '<' with no later '>' cannot open a complete tag,
/// so it stays, with everything after it.
pub open spec fn strip_tags_spec(s: Seq<char>) -> Seq<char>
    decreases s.len(),
    via strip_tags_spec_decreases
{
    if s.len() == 0 {
        Seq::empty()
    } else if s[0] == '<' {
        if find_gt(s) >= 0 {
            strip_tags_spec(s.skip(find_gt(s) + 1))
        } else {
            s
        }
    } else {
        seq![s[0]] + strip_tags_spec(s.skip(1))
    }
}

#[via_fn]
proof fn strip_tags_spec_decreases(s: Seq<char>) {
    if s.len() > 0 && s[0] == '<' {
        lemma_find_gt(s);
    }
}

/// What `strip_html` returns: references decoded, then tags dropped.
pub open spec fn stripped(s: Seq<char>) -> Seq<char> {
    strip_tags_spec(decoded_of(s))
}

/// Drop every complete tag of an already-decoded text.
fn strip_tags_chars(s: &Vec<char>) -> (out: Vec<char>)
    ensures
        out@ == strip_tags_spec(s@),
{
    let mut out: Vec<char> = Vec::new();
    let mut i: usize = 0;
    let n = s.len();
    proof {
        assert(s@.skip(0) =~= s@);
        assert(Seq::<char>::empty() + strip_tags_spec(s@) =~= strip_tags_spec(s@));
    }
    while i < n
        invariant
            i <= n,
            n == s@.len(),
            strip_tags_spec(s@) == out@ + strip_tags_spec(s@.skip(i as int)),
        decreases n - i,
    {
        if s[i] == '<' {
            let mut j = i + 1;
            while j < n && s[j] != '>'
                invariant
                    i < j <= n,
                    n == s@.len(),
                    forall|k: int| i < k < j ==> s@[k] != '>',
                decreases n - j,
            {
                j = j + 1;
            }
            if j < n {
                // s[j] is the first '>' after the '<' at i: the tag is complete.
                proof {
                    let rest = s@.skip(i as int);
                    assert forall|k: int| 0 <= k < j - i implies rest[k] != '>' by {
                        assert(rest[k] == s@[k + i]);
                    }
                    assert(rest[j - i] == s@[j as int]);
                    lemma_find_gt_at(rest, j - i);
                    assert(rest.skip(j - i + 1) =~= s@.skip(j + 1));
                    assert(strip_tags_spec(s@.skip(i as int)) == strip_tags_spec(
                        s@.skip(j + 1),
                    ));
                }
                i = j + 1;
            } else {
                // no '>' anywhere after the '<': everything left is kept.
                proof {
                    let rest = s@.skip(i as int);
                    assert forall|k: int| 0 <= k < rest.len() implies rest[k] != '>' by {
                        assert(rest[k] == s@[k + i]);
                    }
                    lemma_find_gt_none(rest);
                    assert(strip_tags_spec(rest) == rest);
                }
                let ghost out_mid = out@;
                let mut k = i;
                while k < n
                    invariant
                        i <= k <= n,
                        n == s@.len(),
                        out@ == out_mid + s@.subrange(i as int, k as int),
                    decreases n - k,
                {
                    out.push(s[k]);
                    proof {
                        assert(out@ =~= out_mid + s@.subrange(i as int, k + 1));
                    }
                    k = k + 1;
                }
                proof {
                    assert(s@.subrange(i as int, n as int) =~= s@.skip(i as int));
                    assert(out@ + strip_tags_spec(s@.skip(n as int)) =~= out@);
                }
                i = n;
            }
        } else {
            let ghost out_old = out@;
            out.push(s[i]);
            proof {
                let rest = s@.skip(i as int);
                assert(rest[0] == s@[i as int]);
                assert(rest.skip(1) =~= s@.skip(i + 1));
                assert(strip_tags_spec(rest) == seq![s@[i as int]] + strip_tags_spec(
                    s@.skip(i + 1),
                ));
                assert(out@ =~= out_old + seq![s@[i as int]]);
                assert(out@ + strip_tags_spec(s@.skip(i + 1)) =~= out_old + strip_tags_spec(rest));
            }
            i = i + 1;
        }
    }
    proof {
        assert(s@.skip(n as int) =~= Seq::<char>::empty());
        assert(out@ + strip_tags_spec(s@.skip(n as int)) =~= out@);
    }
    out
}

/// If position `j` holds a '>' and nothing before it does, it is the first.
pub proof fn lemma_find_gt_at(s: Seq<char>, j: int)
    requires
        0 <= j < s.len(),
        s[j] == '>',
        forall|k: int| 0 <= k < j ==> s[k] != '>',
    ensures
        find_gt(s) == j,
    decreases j,
{
    if j > 0 {
        assert forall|k: int| 0 <= k < j - 1 implies s.skip(1)[k] != '>' by {
            assert(s.skip(1)[k] == s[k + 1]);
        }
        assert(s.skip(1)[j - 1] == s[j]);
        lemma_find_gt_at(s.skip(1), j - 1);
    }
}

/// If no position holds a '>', there is no first one.
pub proof fn lemma_find_gt_none(s: Seq<char>)
    requires
        forall|k: int| 0 <= k < s.len() ==> s[k] != '>',
    ensures
        find_gt(s) == -1,
    decreases s.len(),
{
    if s.len() > 0 {
        assert forall|k: int| 0 <= k < s.skip(1).len() implies s.skip(1)[k] != '>' by {
            assert(s.skip(1)[k] == s[k + 1]);
        }
        lemma_find_gt_none(s.skip(1));
    }
}

/// Decode HTML character references, then drop every complete tag.
pub fn strip_html(input: &str) -> (r: String)
    ensures
        r@ == stripped(input@),
{
    let decoded = decode_entities(input);
    let chars = chars_of(decoded.as_str());
    let out = strip_tags_chars(&chars);
    string_from_chars(&out)
}

/// The text at slot `k` of a raw step, or empty when the slot is absent.
pub open spec fn text_at(s: StepRaw, k: int) -> Seq<char> {
    if 0 <= k < s.texts@.len() {
        s.texts@[k].value@
    } else {
        Seq::empty()
    }
}

/// One simplified step is its raw step's first two texts, decoded and
/// stripped of tags.
pub open spec fn simplified_post(raw: StepRaw, s: StepSimplified) -> bool {
    &&& s.step@ == stripped(text_at(raw, 0))
    &&& s.expected@ == stripped(text_at(raw, 1))
}

/// Reduce every raw step to plain action and expected-outcome texts, in
/// order; absent texts count as empty.
pub fn simplify_steps(raw: &StepsRaw) -> (out: Vec<StepSimplified>)
    ensures
        out@.len() == raw.steps@.len(),
        forall|i: int| 0 <= i < out@.len() ==> simplified_post(raw.steps@[i], out@[i]),
{
    let mut out: Vec<StepSimplified> = Vec::new();
    let n = raw.steps.len();
    let mut i: usize = 0;
    while i < n
        invariant
            i <= n,
            n == raw.steps@.len(),
            out@.len() == i,
            forall|k: int| 0 <= k < i ==> simplified_post(raw.steps@[k], out@[k]),
        decreases n - i,
    {
        let s = &raw.steps[i];
        let step = if s.texts.len() > 0 {
            strip_html(s.texts[0].value.as_str())
        } else {
            strip_html("")
        };
        let expected = if s.texts.len() > 1 {
            strip_html(s.texts[1].value.as_str())
        } else {
            strip_html("")
        };
        proof {
            reveal_strlit("");
            assert(""@ =~= Seq::<char>::empty());
        }
        out.push(StepSimplified { step, expected });
        i = i + 1;
    }
    out
}

} // verus!
