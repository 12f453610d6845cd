//! Taking secrets out of recorded bytes.

use vstd::prelude::*;

use crate::search::{find, find_bytes, find_from, lemma_find, occurs, occurs_at};

verus! {

/// `contents` with each occurrence of `secret` replaced, from the start on and
/// without overlaps. An empty secret occurs nowhere.
pub open spec fn replaced(contents: Seq<u8>, secret: Seq<u8>, replacement: Seq<u8>) -> Seq<u8>
    decreases contents.len(),
{
    if secret.len() == 0 {
        contents
    } else {
        match find(contents, secret) {
            Some(i) => if 0 <= i && i + secret.len() <= contents.len() {
                contents.take(i) + replacement + replaced(
                    contents.skip(i + secret.len()),
                    secret,
                    replacement,
                )
            } else {
                contents
            },
            None => contents,
        }
    }
}

/// A secret and what takes its place.
pub struct Redaction {
    pub secret: Seq<u8>,
    pub replacement: Seq<u8>,
}

/// The redactions that a list stands for.
pub open spec fn redactions_view(replacements: Seq<(Vec<u8>, &[u8])>) -> Seq<Redaction> {
    replacements.map_values(
        |r: (Vec<u8>, &[u8])| Redaction { secret: r.0@, replacement: r.1@ },
    )
}

/// `contents` with each secret in turn replaced.
pub open spec fn redacted(contents: Seq<u8>, redactions: Seq<Redaction>) -> Seq<u8>
    decreases redactions.len(),
{
    if redactions.len() == 0 {
        contents
    } else {
        let last = redactions.last();
        replaced(redacted(contents, redactions.drop_last()), last.secret, last.replacement)
    }
}

fn append_bytes(out: &mut Vec<u8>, bytes: &[u8], from: usize, to: usize)
    requires
        from <= to <= bytes@.len(),
    ensures
        final(out)@ == old(out)@ + bytes@.subrange(from as int, to as int),
{
    let ghost before = out@;
    let mut i: usize = from;
    while i < to
        invariant
            from <= i <= to <= bytes@.len(),
            out@ == before + bytes@.subrange(from as int, i as int),
        decreases to - i,
    {
        out.push(bytes[i]);
        i = i + 1;
        assert(out@ =~= before + bytes@.subrange(from as int, i as int));
    }
}

proof fn lemma_find_from_skip(s: Seq<u8>, pattern: Seq<u8>, from: int, i: int)
    requires
        0 <= from <= s.len(),
        0 <= i,
    ensures
        find_from(s, pattern, from + i) == (match find_from(s.skip(from), pattern, i) {
            Some(k) => Some(from + k),
            None => None,
        }),
    decreases s.len() - from - i + 1,
{
    let rest = s.skip(from);
    if i + pattern.len() <= rest.len() {
        assert(rest.subrange(i, i + pattern.len()) =~= s.subrange(
            from + i,
            from + i + pattern.len(),
        ));
        if !occurs_at(rest, pattern, i) {
            lemma_find_from_skip(s, pattern, from, i + 1);
        }
    }
}

fn replace_bytes(contents: &Vec<u8>, secret: &Vec<u8>, replacement: &[u8]) -> (result: Vec<u8>)
    requires
        secret@.len() > 0,
    ensures
        result@ == replaced(contents@, secret@, replacement@),
{
    let mut result: Vec<u8> = Vec::new();
    let mut cursor: usize = 0;
    let n: usize = contents.len();
    assert(contents@.skip(0) =~= contents@);
    assert(result@ + replaced(contents@, secret@, replacement@) =~= replaced(
        contents@,
        secret@,
        replacement@,
    ));
    loop
        invariant
            secret@.len() > 0,
            n == contents@.len(),
            cursor <= n,
            replaced(contents@, secret@, replacement@) == result@ + replaced(
                contents@.skip(cursor as int),
                secret@,
                replacement@,
            ),
        decreases contents@.len() - cursor,
    {
        let ghost rest = contents@.skip(cursor as int);
        let ghost before = result@;
        proof {
            lemma_find_from_skip(contents@, secret@, cursor as int, 0);
            lemma_find(rest, secret@);
        }
        match find_bytes(contents.as_slice(), secret.as_slice(), cursor) {
            Some(position) => {
                append_bytes(&mut result, contents.as_slice(), cursor, position);
                append_bytes(&mut result, replacement, 0, replacement.len());
                proof {
                    let i = position - cursor;
                    assert(rest.take(i) =~= contents@.subrange(cursor as int, position as int));
                    assert(replacement@.subrange(0, replacement@.len() as int) =~= replacement@);
                    assert(rest.skip(i + secret@.len()) =~= contents@.skip(
                        position + secret@.len(),
                    ));
                    let after = replaced(
                        contents@.skip(position + secret@.len()),
                        secret@,
                        replacement@,
                    );
                    assert(before + (rest.take(i) + replacement@ + after) =~= result@ + after);
                }
                cursor = position + secret.len();
            },
            None => {
                append_bytes(&mut result, contents.as_slice(), cursor, contents.len());
                proof {
                    assert(rest =~= contents@.subrange(cursor as int, contents@.len() as int));
                }
                return result;
            },
        }
    }
}

/// `contents` with each secret in turn replaced. All other bytes are kept, whether
/// or not they are text.
pub fn redact_bytes(contents: Vec<u8>, replacements: &[(Vec<u8>, &[u8])]) -> (result: Vec<u8>)
    ensures
        result@ == redacted(contents@, redactions_view(replacements@)),
{
    let ghost given = contents@;
    let ghost all = redactions_view(replacements@);
    let mut result: Vec<u8> = contents;
    for i in 0..replacements.len()
        invariant
            all == redactions_view(replacements@),
            result@ == redacted(given, all.take(i as int)),
    {
        proof {
            assert(all.take(i + 1).drop_last() =~= all.take(i as int));
            assert(all.take(i + 1).last() == all[i as int]);
        }
        if replacements[i].0.len() > 0 {
            result = replace_bytes(&result, &replacements[i].0, replacements[i].1);
        }
    }
    assert(all.take(all.len() as int) =~= all);
    result
}

/// Contents in which a secret does not occur are kept as they are.
pub proof fn law_nothing_to_redact(contents: Seq<u8>, secret: Seq<u8>, replacement: Seq<u8>)
    requires
        secret.len() == 0 || !occurs(contents, secret),
    ensures
        replaced(contents, secret, replacement) == contents,
{
    lemma_find(contents, secret);
}

/// Whether two sequences agree wherever they overlap, once the first is moved by
/// `shift` against the second.
pub open spec fn agrees_at(s: Seq<u8>, t: Seq<u8>, shift: int) -> bool {
    forall|p: int| 0 <= p < s.len() && 0 <= p + shift < t.len() ==> #[trigger] s[p] == t[p + shift]
}

/// Whether the first of two sequences cannot be laid over the second, not even in
/// part, so that the two agree.
pub open spec fn is_apart(s: Seq<u8>, t: Seq<u8>) -> bool {
    forall|shift: int|
        -(s.len() as int) < shift < t.len() ==> !#[trigger] agrees_at(s, t, shift)
}

/// Where a secret cannot be laid over what takes its place, not even in part, so
/// that the two agree, the secret does not occur in the result.
pub proof fn law_secret_is_gone(contents: Seq<u8>, secret: Seq<u8>, replacement: Seq<u8>)
    requires
        secret.len() > 0,
        replacement.len() > 0,
        is_apart(secret, replacement),
    ensures
        !occurs(replaced(contents, secret, replacement), secret),
    decreases contents.len(),
{
    lemma_find(contents, secret);
    if let Some(i) = find(contents, secret) {
        let rest = replaced(contents.skip(i + secret.len()), secret, replacement);
        let whole = replaced(contents, secret, replacement);
        let gap = i + replacement.len();
        law_secret_is_gone(contents.skip(i + secret.len()), secret, replacement);
        assert(whole == contents.take(i) + replacement + rest);
        assert forall|k: int| !occurs_at(whole, secret, k) by {
            if occurs_at(whole, secret, k) {
                let window = whole.subrange(k, k + secret.len());
                if k + secret.len() <= i {
                    assert(contents.subrange(k, k + secret.len()) =~= window);
                    assert(occurs_at(contents, secret, k));
                } else if k >= gap {
                    assert(rest.subrange(k - gap, k - gap + secret.len()) =~= window);
                    assert(occurs_at(rest, secret, k - gap));
                } else {
                    assert(agrees_at(secret, replacement, k - i)) by {
                        assert forall|p: int|
                            0 <= p < secret.len() && 0 <= p + (k - i)
                                < replacement.len() implies #[trigger] secret[p] == replacement[p
                            + (k - i)] by {
                            assert(window[p] == secret[p]);
                            assert(whole[k + p] == replacement[p + (k - i)]);
                        }
                    }
                }
            }
        }
    }
}

/// The first of each pair is the secret, the second what takes its place.
pub proof fn law_pairs_are_redactions(replacements: Seq<(Vec<u8>, &[u8])>)
    ensures
        redactions_view(replacements).len() == replacements.len(),
        forall|i: int|
            0 <= i < replacements.len() ==> {
                let redaction = #[trigger] redactions_view(replacements)[i];
                redaction.secret == replacements[i].0@ && redaction.replacement
                    == replacements[i].1@
            },
{
}

/// One redaction replaces every occurrence of its secret, of any length, from the
/// start on and without overlaps. Contents without the secret are kept, and an
/// empty secret occurs nowhere.
pub proof fn law_one_redaction(contents: Seq<u8>, redaction: Redaction, i: int)
    ensures
        ({
            let secret = redaction.secret;
            let result = redacted(contents, seq![redaction]);
            &&& secret.len() == 0 ==> result == contents
            &&& !occurs(contents, secret) ==> result == contents
            &&& secret.len() > 0 && occurs_at(contents, secret, i) && (forall|j: int|
                0 <= j < i ==> !occurs_at(contents, secret, j)) ==> result == contents.take(i)
                + redaction.replacement + redacted(
                contents.skip(i + secret.len()),
                seq![redaction],
            )
        }),
{
    let secret = redaction.secret;
    let list = seq![redaction];
    assert(list.drop_last() =~= Seq::<Redaction>::empty());
    lemma_find(contents, secret);
    assert(redacted(contents, list.drop_last()) == contents);
    let rest = contents.skip(i + secret.len());
    assert(redacted(rest, list.drop_last()) == rest);
    if occurs_at(contents, secret, i) && forall|j: int|
        0 <= j < i ==> !occurs_at(contents, secret, j) {
        assert(occurs(contents, secret));
        assert(find(contents, secret) == Some(i));
    }
}

/// Redactions are carried out one after the other, and none of them is left out.
pub proof fn law_redactions_follow_each_other(
    contents: Seq<u8>,
    first: Seq<Redaction>,
    second: Seq<Redaction>,
)
    ensures
        redacted(contents, Seq::empty()) == contents,
        redacted(contents, first + second) == redacted(redacted(contents, first), second),
    decreases second.len(),
{
    if second.len() == 0 {
        assert(first + second =~= first);
    } else {
        law_redactions_follow_each_other(contents, first, second.drop_last());
        assert((first + second).drop_last() =~= first + second.drop_last());
        assert((first + second).last() == second.last());
    }
}

/// Replacing one secret does not bring another back that is not there, where the
/// other cannot be laid over the replacement.
proof fn lemma_other_secret_stays_gone(
    contents: Seq<u8>,
    secret: Seq<u8>,
    replacement: Seq<u8>,
    other: Seq<u8>,
)
    requires
        other.len() > 0,
        replacement.len() > 0,
        is_apart(other, replacement),
        !occurs(contents, other),
    ensures
        !occurs(replaced(contents, secret, replacement), other),
    decreases contents.len(),
{
    lemma_find(contents, secret);
    if secret.len() > 0 {
        if let Some(i) = find(contents, secret) {
            let tail = contents.skip(i + secret.len());
            let rest = replaced(tail, secret, replacement);
            let whole = replaced(contents, secret, replacement);
            let gap = i + replacement.len();
            assert forall|k: int| !occurs_at(tail, other, k) by {
                if occurs_at(tail, other, k) {
                    let at = i + secret.len() + k;
                    assert(contents.subrange(at, at + other.len()) =~= tail.subrange(
                        k,
                        k + other.len(),
                    ));
                    assert(occurs_at(contents, other, at));
                }
            }
            lemma_other_secret_stays_gone(tail, secret, replacement, other);
            assert(whole == contents.take(i) + replacement + rest);
            assert forall|k: int| !occurs_at(whole, other, k) by {
                if occurs_at(whole, other, k) {
                    let window = whole.subrange(k, k + other.len());
                    if k + other.len() <= i {
                        assert(contents.subrange(k, k + other.len()) =~= window);
                        assert(occurs_at(contents, other, k));
                    } else if k >= gap {
                        assert(rest.subrange(k - gap, k - gap + other.len()) =~= window);
                        assert(occurs_at(rest, other, k - gap));
                    } else {
                        assert(agrees_at(other, replacement, k - i)) by {
                            assert forall|p: int|
                                0 <= p < other.len() && 0 <= p + (k - i)
                                    < replacement.len() implies #[trigger] other[p]
                                == replacement[p + (k - i)] by {
                                assert(window[p] == other[p]);
                                assert(whole[k + p] == replacement[p + (k - i)]);
                            }
                        }
                    }
                }
            }
        }
    }
}

/// Where no secret of a list can be laid over any replacement of the list, no
/// secret of the list is left, however many and however long they are.
pub proof fn law_no_secret_is_left(contents: Seq<u8>, redactions: Seq<Redaction>)
    requires
        forall|i: int| 0 <= i < redactions.len() ==> (#[trigger] redactions[i]).secret.len() > 0,
        forall|i: int|
            0 <= i < redactions.len() ==> (#[trigger] redactions[i]).replacement.len() > 0,
        forall|i: int, j: int|
            0 <= i < redactions.len() && 0 <= j < redactions.len() ==> is_apart(
                (#[trigger] redactions[i]).secret,
                (#[trigger] redactions[j]).replacement,
            ),
    ensures
        forall|i: int|
            0 <= i < redactions.len() ==> !occurs(
                redacted(contents, redactions),
                (#[trigger] redactions[i]).secret,
            ),
    decreases redactions.len(),
{
    if redactions.len() > 0 {
        let fewer = redactions.drop_last();
        let last = redactions[redactions.len() - 1];
        assert forall|i: int, j: int| 0 <= i < fewer.len() && 0 <= j < fewer.len() implies is_apart(
            (#[trigger] fewer[i]).secret,
            (#[trigger] fewer[j]).replacement,
        ) by {
            assert(is_apart(redactions[i].secret, redactions[j].replacement));
        }
        assert forall|i: int| 0 <= i < fewer.len() implies (#[trigger] fewer[i]).secret.len() > 0
            && fewer[i].replacement.len() > 0 by {
            assert(redactions[i].secret.len() > 0 && redactions[i].replacement.len() > 0);
        }
        law_no_secret_is_left(contents, fewer);
        let before = redacted(contents, fewer);
        assert forall|i: int| 0 <= i < redactions.len() implies !occurs(
            redacted(contents, redactions),
            (#[trigger] redactions[i]).secret,
        ) by {
            assert(is_apart(redactions[i].secret, last.replacement));
            if i < fewer.len() {
                assert(!occurs(before, fewer[i].secret));
                lemma_other_secret_stays_gone(
                    before,
                    last.secret,
                    last.replacement,
                    redactions[i].secret,
                );
            } else {
                law_secret_is_gone(before, last.secret, last.replacement);
            }
        }
    }
}

} // verus!
