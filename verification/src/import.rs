//! Batch import and export of profile files.
//!
//! Import validates each offered file (extension, readability, minimum
//! content length), derives a profile name by stripping the extension
//! and every non-alphanumeric character, resolves name collisions with
//! numbered suffixes, and never overwrites an existing profile. One bad
//! file never aborts the batch.

use vstd::prelude::*;
use vstd::string::StrSliceExecFns;
use crate::errors::{AppError, ValidationReason};
use crate::store::Store;
use crate::text::{
    has_conf_ext, ends_with_conf, strip_conf, strip_conf_ext, sanitized, sanitize_name,
    suffixed, with_suffix,
};

verus! {

/// One file offered for import: the path as given, the file name the
/// host derived from it (if any), and the result of reading it
/// (`Err` carries the I/O detail).
#[derive(Debug)]
pub struct ImportFile {
    pub path: String,
    pub file_name: Option<String>,
    pub content: Result<String, String>,
}

/// Why one file of a batch was not imported.
#[derive(Debug, Clone, PartialEq, Eq)]
pub struct ImportError {
    pub file_name: String,
    pub error: AppError,
}

/// The outcome of an import batch: the final names written, in order,
/// and the per-file failures, in order.
#[derive(Debug)]
pub struct ImportResult {
    pub success: Vec<String>,
    pub failed: Vec<ImportError>,
}

/// Why one profile of an export batch was not copied.
#[derive(Debug, Clone, PartialEq, Eq)]
pub struct ExportError {
    pub profile_name: String,
    pub error: AppError,
}

/// The outcome of an export batch: the profiles copied, in order, and
/// the per-profile failures, in order.
#[derive(Debug)]
pub struct ExportResult {
    pub success: Vec<String>,
    pub failed: Vec<ExportError>,
}

/// The `k`-th collision candidate for a sanitized base name.
pub open spec fn candidate(san: Seq<char>, k: nat) -> Seq<char> {
    if k == 0 {
        san
    } else {
        suffixed(san, k)
    }
}

/// The first candidate with index in `k..=bound` not among `names`,
/// if any.
pub open spec fn free_from(names: Seq<Seq<char>>, san: Seq<char>, k: nat, bound: nat) -> Option<
    Seq<char>,
>
    decreases bound + 1 - k,
{
    if k > bound {
        Option::None
    } else if !names.contains(candidate(san, k)) {
        Option::Some(candidate(san, k))
    } else {
        free_from(names, san, k + 1, bound)
    }
}

/// The name an import of base name `san` would be written under when
/// `names` are taken: the first of `san`, `san_1`, `san_2`, … that is
/// free. The search tries one more candidate than there are names.
pub open spec fn free_name(names: Seq<Seq<char>>, san: Seq<char>) -> Option<Seq<char>> {
    free_from(names, san, 0, names.len())
}

/// Distinct counters give distinct collision candidates.
proof fn lemma_candidate_injective(san: Seq<char>, i: nat, j: nat)
    requires
        candidate(san, i) == candidate(san, j),
    ensures
        i == j,
{
    crate::text::lemma_dec_len(i);
    crate::text::lemma_dec_len(j);
    if i == 0 && j != 0 {
        assert(candidate(san, j).len() == san.len() + 1 + crate::text::dec_of(j).len());
    } else if i != 0 && j == 0 {
        assert(candidate(san, i).len() == san.len() + 1 + crate::text::dec_of(i).len());
    } else if i != 0 && j != 0 {
        let w = candidate(san, i);
        let b = san.len() as int;
        assert(w.len() == b + 1 + crate::text::dec_of(i).len());
        assert(w.len() == b + 1 + crate::text::dec_of(j).len());
        assert(crate::text::dec_of(i) =~= w.subrange(b + 1, w.len() as int));
        assert(crate::text::dec_of(j) =~= w.subrange(b + 1, w.len() as int));
        crate::text::lemma_dec_injective(i, j);
    }
}

/// A failed bounded search means every candidate in the range is taken.
proof fn lemma_free_from_none(names: Seq<Seq<char>>, san: Seq<char>, k: nat, bound: nat)
    requires
        free_from(names, san, k, bound) is None,
        k <= bound,
    ensures
        forall|j: int| k <= j <= bound ==> names.contains(#[trigger] candidate(san, j as nat)),
    decreases bound + 1 - k,
{
    assert(names.contains(candidate(san, k)));
    if k < bound {
        lemma_free_from_none(names, san, k + 1, bound);
        assert forall|j: int| k <= j <= bound implies names.contains(
            #[trigger] candidate(san, j as nat),
        ) by {
            if j == k {
                assert(names.contains(candidate(san, k)));
            }
        }
    }
}

/// The collision search always succeeds: there is one more candidate
/// than there are profiles, and candidates do not repeat.
pub proof fn lemma_free_name_exists(names: Seq<Seq<char>>, san: Seq<char>)
    requires
        names.no_duplicates(),
    ensures
        free_name(names, san) is Some,
{
    broadcast use vstd::seq_lib::seq_to_set_is_finite;

    let n = names.len() as int;
    if free_name(names, san) is None {
        lemma_free_from_none(names, san, 0, names.len());
        let cands = Seq::new((n + 1) as nat, |k: int| candidate(san, k as nat));
        assert(cands.no_duplicates()) by {
            assert forall|i: int, j: int|
                0 <= i < cands.len() && 0 <= j < cands.len() && i != j implies cands[i]
                != cands[j] by {
                if cands[i] == cands[j] {
                    lemma_candidate_injective(san, i as nat, j as nat);
                }
            }
        }
        cands.unique_seq_to_set();
        let nameset = names.to_set();
        assert(cands.to_set().subset_of(nameset)) by {
            assert forall|x: Seq<char>| cands.to_set().contains(x) implies nameset.contains(
                x,
            ) by {
                let k = choose|k: int| 0 <= k < cands.len() && cands[k] == x;
                assert(names.contains(candidate(san, k as nat)));
            }
        }
        names.lemma_cardinality_of_set();
        vstd::set_lib::lemma_len_subset(cands.to_set(), nameset);
        assert(false);
    }
}

/// Finds the first collision-free candidate name; one always exists.
fn find_free_name(s: &Store, san: &str) -> (r: String)
    requires
        s.wf(),
    ensures
        free_name(s.names(), san@) == Option::Some(r@),
        !s.has(r@),
{
    let bound = s.profiles.len();
    let mut k: usize = 0;
    loop
        invariant
            s.wf(),
            bound == s.names().len(),
            k <= bound,
            free_from(s.names(), san@, 0, bound as nat) == free_from(
                s.names(),
                san@,
                k as nat,
                bound as nat,
            ),
        decreases bound - k,
    {
        let cand: String = if k == 0 {
            san.to_owned()
        } else {
            with_suffix(san, k as u64)
        };
        proof {
            assert(cand@ == candidate(san@, k as nat));
        }
        if !s.exists_name(cand.as_str()) {
            proof {
                assert(free_from(s.names(), san@, k as nat, bound as nat) == Option::Some(
                    cand@,
                ));
            }
            return cand;
        }
        proof {
            assert(free_from(s.names(), san@, k as nat, bound as nat) == free_from(
                s.names(),
                san@,
                k as nat + 1,
                bound as nat,
            ));
        }
        if k == bound {
            proof {
                assert(free_from(s.names(), san@, k as nat + 1, bound as nat) is None);
                assert(s.names().no_duplicates());
                lemma_free_name_exists(s.names(), san@);
            }
            return vstd::pervasive::unreached();
        }
        k += 1;
    }
}

/// The identifier a failure is recorded under: the derived file name,
/// or the whole path when none could be derived.
pub open spec fn import_label(f: ImportFile) -> Seq<char> {
    match f.file_name {
        Option::Some(x) => x@,
        Option::None => f.path@,
    }
}

/// The name under which an import of `f` is recorded when `names` are
/// taken, or the reason it is rejected. The checks run in this order:
/// a file name must exist, it must carry the recognized extension, the
/// content must have been read, it must be at least 8 characters, and
/// the sanitized name must be nonempty; a collision-free name then
/// always exists.
pub open spec fn verdict_names(names: Seq<Seq<char>>, f: ImportFile) -> Result<
    Seq<char>,
    AppError,
> {
    match f.file_name {
        Option::None => Result::Err(
            AppError::ValidationError { reason: ValidationReason::MissingFileName },
        ),
        Option::Some(fname) => if !has_conf_ext(fname@) {
            Result::Err(AppError::ValidationError { reason: ValidationReason::WrongExtension })
        } else {
            match f.content {
                Result::Err(d) => Result::Err(AppError::IoError { detail: d }),
                Result::Ok(c) => if c@.len() < 8 {
                    Result::Err(
                        AppError::ValidationError { reason: ValidationReason::ContentTooShort },
                    )
                } else {
                    let san = sanitized(strip_conf(fname@));
                    if san.len() == 0 {
                        Result::Err(
                            AppError::ValidationError { reason: ValidationReason::EmptyName },
                        )
                    } else {
                        Result::Ok(free_name(names, san)->Some_0)
                    }
                },
            }
        },
    }
}

/// The verdict of one file against the profiles of a store.
pub open spec fn import_verdict(pre: Store, f: ImportFile) -> Result<Seq<char>, AppError> {
    verdict_names(pre.names(), f)
}

/// Imports one file: on success the content is stored verbatim under
/// the verdict name and nothing else changes; on failure the store is
/// untouched and the failure names the file (or the whole path when no
/// file name could be derived).
pub fn import_one(s: &mut Store, f: ImportFile) -> (r: Result<String, ImportError>)
    requires
        old(s).wf(),
    ensures
        final(s).wf(),
        (match import_verdict(*old(s), f) {
            Result::Ok(nm) => {
                &&& (r matches Result::Ok(rs) && rs@ == nm)
                &&& !old(s).has(nm)
                &&& final(s).names() == old(s).names().push(nm)
                &&& (f.content matches Result::Ok(c) && final(s).content_of(nm) == c@)
                &&& (forall|n: Seq<char>| n != nm ==> #[trigger] final(s).has(n) == old(s).has(n))
                &&& (forall|n: Seq<char>|
                    old(s).has(n) ==> #[trigger] final(s).content_of(n) == old(s).content_of(n))
            },
            Result::Err(e) => {
                &&& *final(s) == *old(s)
                &&& (r matches Result::Err(ie) && ie.error == e && ie.file_name@
                    == import_label(f))
            },
        }),
{
    let ImportFile { path, file_name, content } = f;
    let fname: String = match file_name {
        Some(x) => x,
        None => {
            return Err(
                ImportError {
                    file_name: path,
                    error: AppError::ValidationError {
                        reason: ValidationReason::MissingFileName,
                    },
                },
            );
        },
    };
    if !ends_with_conf(fname.as_str()) {
        return Err(
            ImportError {
                file_name: fname,
                error: AppError::ValidationError { reason: ValidationReason::WrongExtension },
            },
        );
    }
    let ctext: String = match content {
        Ok(c) => c,
        Err(d) => {
            return Err(ImportError { file_name: fname, error: AppError::IoError { detail: d } });
        },
    };
    if ctext.as_str().unicode_len() < 8 {
        return Err(
            ImportError {
                file_name: fname,
                error: AppError::ValidationError { reason: ValidationReason::ContentTooShort },
            },
        );
    }
    let base = strip_conf_ext(fname.as_str());
    let san = sanitize_name(base.as_str());
    if san.as_str().unicode_len() == 0 {
        return Err(
            ImportError {
                file_name: fname,
                error: AppError::ValidationError { reason: ValidationReason::EmptyName },
            },
        );
    }
    let nm = find_free_name(s, san.as_str());
    let ret = nm.clone();
    s.insert_fresh(nm, ctext);
    Ok(ret)
}

/// The profile names present after a batch runs against `names`: each
/// accepted file adds its verdict name, each rejected file adds
/// nothing.
pub open spec fn fold_names(names: Seq<Seq<char>>, files: Seq<ImportFile>) -> Seq<Seq<char>>
    decreases files.len(),
{
    if files.len() == 0 {
        names
    } else {
        match verdict_names(names, files.first()) {
            Result::Ok(nm) => fold_names(names.push(nm), files.drop_first()),
            Result::Err(e) => fold_names(names, files.drop_first()),
        }
    }
}

/// The final names of the files a batch accepts, in input order.
pub open spec fn fold_succ(names: Seq<Seq<char>>, files: Seq<ImportFile>) -> Seq<Seq<char>>
    decreases files.len(),
{
    if files.len() == 0 {
        Seq::empty()
    } else {
        match verdict_names(names, files.first()) {
            Result::Ok(nm) => seq![nm] + fold_succ(names.push(nm), files.drop_first()),
            Result::Err(e) => fold_succ(names, files.drop_first()),
        }
    }
}

/// The (identifier, reason) pairs of the files a batch rejects, in
/// input order.
pub open spec fn fold_failed(names: Seq<Seq<char>>, files: Seq<ImportFile>) -> Seq<
    (Seq<char>, AppError),
>
    decreases files.len(),
{
    if files.len() == 0 {
        Seq::empty()
    } else {
        match verdict_names(names, files.first()) {
            Result::Ok(nm) => fold_failed(names.push(nm), files.drop_first()),
            Result::Err(e) => seq![(import_label(files.first()), e)] + fold_failed(
                names,
                files.drop_first(),
            ),
        }
    }
}

/// The (final name, content) pairs a batch writes, in input order.
pub open spec fn fold_contents(names: Seq<Seq<char>>, files: Seq<ImportFile>) -> Seq<
    (Seq<char>, Seq<char>),
>
    decreases files.len(),
{
    if files.len() == 0 {
        Seq::empty()
    } else {
        match verdict_names(names, files.first()) {
            Result::Ok(nm) => seq![(nm, files.first().content->Ok_0@)] + fold_contents(
                names.push(nm),
                files.drop_first(),
            ),
            Result::Err(e) => fold_contents(names, files.drop_first()),
        }
    }
}

/// The (identifier, reason) views of recorded import failures.
pub open spec fn import_fail_views(v: Seq<ImportError>) -> Seq<(Seq<char>, AppError)> {
    v.map_values(|e: ImportError| (e.file_name@, e.error))
}

/// Imports a batch: the store afterwards, the success list and the
/// failure list are exactly the fold of the per-file verdict over the
/// inputs, in input order, with the store's names threaded through.
/// Profiles that existed before the batch are never renamed or
/// overwritten, nothing is created beyond the reported successes, and
/// every reported success exists afterwards.
pub fn import_batch(s: &mut Store, files: Vec<ImportFile>) -> (r: ImportResult)
    requires
        old(s).wf(),
    ensures
        final(s).wf(),
        final(s).names() == fold_names(old(s).names(), files@),
        views_of(r.success@) == fold_succ(old(s).names(), files@),
        import_fail_views(r.failed@) == fold_failed(old(s).names(), files@),
        forall|j: int|
            0 <= j < fold_contents(old(s).names(), files@).len() ==> final(s).has(
                (#[trigger] fold_contents(old(s).names(), files@)[j]).0,
            ) && final(s).content_of(fold_contents(old(s).names(), files@)[j].0)
                == fold_contents(old(s).names(), files@)[j].1,
        r.success@.len() + r.failed@.len() == files@.len(),
        forall|i: int| 0 <= i < r.success@.len() ==> final(s).has(#[trigger] r.success@[i]@),
        forall|n: Seq<char>| old(s).has(n) ==> #[trigger] final(s).has(n),
        forall|n: Seq<char>|
            old(s).has(n) ==> #[trigger] final(s).content_of(n) == old(s).content_of(n),
{
    let mut rest = files;
    let ghost files0 = rest@;
    let ghost total = rest@.len();
    let ghost s0 = *s;
    let mut success: Vec<String> = Vec::new();
    let mut failed: Vec<ImportError> = Vec::new();
    proof {
        assert(views_of(success@) =~= Seq::<Seq<char>>::empty());
        assert(import_fail_views(failed@) =~= Seq::<(Seq<char>, AppError)>::empty());
        assert(views_of(success@) + fold_succ(s.names(), rest@) =~= fold_succ(
            s0.names(),
            files0,
        ));
        assert(import_fail_views(failed@) + fold_failed(s.names(), rest@) =~= fold_failed(
            s0.names(),
            files0,
        ));
        assert(fold_contents(s0.names(), files0).skip(0) =~= fold_contents(
            s.names(),
            rest@,
        ));
    }
    while rest.len() > 0
        invariant
            s.wf(),
            success@.len() + failed@.len() + rest@.len() == total,
            total == files0.len(),
            views_of(success@) + fold_succ(s.names(), rest@) == fold_succ(s0.names(), files0),
            import_fail_views(failed@) + fold_failed(s.names(), rest@) == fold_failed(
                s0.names(),
                files0,
            ),
            fold_names(s.names(), rest@) == fold_names(s0.names(), files0),
            success@.len() <= fold_contents(s0.names(), files0).len(),
            fold_contents(s0.names(), files0).skip(success@.len() as int) == fold_contents(
                s.names(),
                rest@,
            ),
            forall|j: int|
                0 <= j < success@.len() ==> s.has(
                    (#[trigger] fold_contents(s0.names(), files0)[j]).0,
                ) && s.content_of(fold_contents(s0.names(), files0)[j].0) == fold_contents(
                    s0.names(),
                    files0,
                )[j].1,
            forall|i: int| 0 <= i < success@.len() ==> s.has(#[trigger] success@[i]@),
            forall|n: Seq<char>| s0.has(n) ==> #[trigger] s.has(n),
            forall|n: Seq<char>| s0.has(n) ==> #[trigger] s.content_of(n) == s0.content_of(n),
        decreases rest@.len(),
    {
        let ghost rest0 = rest@;
        let f = rest.remove(0);
        let ghost spre = *s;
        let ghost fg = f;
        proof {
            assert(rest@ =~= rest0.drop_first());
            assert(fg == rest0.first());
        }
        let one = import_one(s, f);
        proof {
            let verdict = import_verdict(spre, fg);
            assert forall|n: Seq<char>| spre.has(n) implies #[trigger] s.has(n) by {
                if verdict is Ok {
                    assert(n != verdict->Ok_0);
                }
            }
            assert forall|n: Seq<char>| spre.has(n) implies #[trigger] s.content_of(n)
                == spre.content_of(n) by {
                if verdict is Ok {
                    assert(n != verdict->Ok_0);
                }
            }
            assert forall|i: int| 0 <= i < success@.len() implies s.has(
                #[trigger] success@[i]@,
            ) by {
                assert(spre.has(success@[i]@));
            }
            assert forall|n: Seq<char>| s0.has(n) implies #[trigger] s.content_of(n)
                == s0.content_of(n) by {
                assert(spre.has(n));
            }
        }
        match one {
            Ok(nm) => {
                let ghost succ0 = success@;
                proof {
                    let verdict = import_verdict(spre, fg);
                    assert(verdict is Ok);
                    let nm_v = verdict->Ok_0;
                    assert(s.names() == spre.names().push(nm_v));
                    assert(s.names()[s.names().len() - 1] == nm@);
                    assert(s.has(nm@));
                    assert(nm@ == nm_v);
                    assert(fold_succ(spre.names(), rest0) == seq![nm_v] + fold_succ(
                        s.names(),
                        rest@,
                    ));
                    assert(fold_failed(spre.names(), rest0) == fold_failed(s.names(), rest@));
                    assert(fold_names(spre.names(), rest0) == fold_names(s.names(), rest@));
                    let all = fold_contents(s0.names(), files0);
                    let k = succ0.len() as int;
                    let c = fg.content->Ok_0;
                    assert(fold_contents(spre.names(), rest0) == seq![(nm_v, c@)]
                        + fold_contents(s.names(), rest@));
                    assert(all.skip(k) == fold_contents(spre.names(), rest0));
                    assert(all.skip(k).len() >= 1);
                    assert(k < all.len());
                    assert(all.skip(k)[0] == all[k]);
                    assert(all[k] == (nm_v, c@));
                    assert forall|i: int|
                        0 <= i < all.len() - k - 1 implies fold_contents(s.names(), rest@)[i]
                        == all[k + 1 + i] by {
                        assert(all.skip(k)[i + 1] == all[k + 1 + i]);
                        assert((seq![(nm_v, c@)] + fold_contents(s.names(), rest@))[i + 1]
                            == fold_contents(s.names(), rest@)[i]);
                    }
                    assert(all.skip(k + 1) =~= fold_contents(s.names(), rest@));
                    assert(s.content_of(all[k].0) == all[k].1);
                    assert forall|j: int|
                        0 <= j < k + 1 implies s.has((#[trigger] all[j]).0) && s.content_of(
                        all[j].0,
                    ) == all[j].1 by {
                        if j < k {
                            assert(spre.has(all[j].0));
                            assert(all[j].0 != nm_v);
                        }
                    }
                }
                success.push(nm);
                proof {
                    let nm_v = import_verdict(spre, fg)->Ok_0;
                    assert(views_of(success@) =~= views_of(succ0).push(nm_v));
                    assert(views_of(success@) + fold_succ(s.names(), rest@) =~= views_of(succ0)
                        + fold_succ(spre.names(), rest0));
                }
            },
            Err(e) => {
                let ghost failed0 = failed@;
                proof {
                    let verdict = import_verdict(spre, fg);
                    assert(verdict is Err);
                    let e_v = verdict->Err_0;
                    assert(*s == spre);
                    assert(e.error == e_v);
                    assert(e.file_name@ == import_label(fg));
                    assert(fold_failed(spre.names(), rest0) == seq![(import_label(fg), e_v)]
                        + fold_failed(s.names(), rest@));
                    assert(fold_succ(spre.names(), rest0) == fold_succ(s.names(), rest@));
                    assert(fold_names(spre.names(), rest0) == fold_names(s.names(), rest@));
                    assert(fold_contents(spre.names(), rest0) == fold_contents(
                        s.names(),
                        rest@,
                    ));
                }
                failed.push(e);
                proof {
                    let e_v = import_verdict(spre, fg)->Err_0;
                    assert(import_fail_views(failed@) =~= import_fail_views(failed0).push(
                        (import_label(fg), e_v),
                    ));
                    assert(import_fail_views(failed@) + fold_failed(s.names(), rest@)
                        =~= import_fail_views(failed0) + fold_failed(spre.names(), rest0));
                }
            },
        }
    }
    proof {
        assert(fold_succ(s.names(), rest@) =~= Seq::<Seq<char>>::empty());
        assert(fold_failed(s.names(), rest@) =~= Seq::<(Seq<char>, AppError)>::empty());
        assert(views_of(success@) =~= views_of(success@) + fold_succ(s.names(), rest@));
        assert(import_fail_views(failed@) =~= import_fail_views(failed@) + fold_failed(
            s.names(),
            rest@,
        ));
        assert(fold_names(s.names(), rest@) == s.names());
        assert(fold_contents(s.names(), rest@) =~= Seq::<(Seq<char>, Seq<char>)>::empty());
        assert(fold_contents(s0.names(), files0).skip(success@.len() as int).len() == 0);
        assert(fold_contents(s0.names(), files0).len() == success@.len());
    }
    ImportResult { success, failed }
}

/// The view of an export failure's detail.
pub open spec fn export_detail(e: AppError) -> Seq<char> {
    match e {
        AppError::IoError { detail } => detail@,
        _ => Seq::empty(),
    }
}

/// The character sequences of a list of strings.
pub open spec fn views_of(v: Seq<String>) -> Seq<Seq<char>> {
    v.map_values(|x: String| x@)
}

/// The (name, detail) views of a list of export failures.
pub open spec fn fail_views(v: Seq<ExportError>) -> Seq<(Seq<char>, Seq<char>)> {
    v.map_values(|e: ExportError| (e.profile_name@, export_detail(e.error)))
}

/// The profiles whose copy succeeded, in order.
pub open spec fn succ_names(names: Seq<String>, oc: Seq<Option<String>>) -> Seq<Seq<char>>
    decreases names.len(),
{
    if names.len() == 0 {
        Seq::empty()
    } else {
        succ_names(names.drop_last(), oc.drop_last()) + (match oc.last() {
            Option::None => seq![names.last()@],
            Option::Some(d) => Seq::empty(),
        })
    }
}

/// The profiles whose copy failed, with the I/O detail, in order.
pub open spec fn fail_pairs(names: Seq<String>, oc: Seq<Option<String>>) -> Seq<
    (Seq<char>, Seq<char>),
>
    decreases names.len(),
{
    if names.len() == 0 {
        Seq::empty()
    } else {
        fail_pairs(names.drop_last(), oc.drop_last()) + (match oc.last() {
            Option::Some(d) => seq![(names.last()@, d@)],
            Option::None => Seq::empty(),
        })
    }
}

/// Splitting one more outcome extends exactly one of the two lists.
proof fn lemma_split_take_step(names: Seq<String>, oc: Seq<Option<String>>, k: int)
    requires
        0 <= k < names.len(),
        oc.len() == names.len(),
    ensures
        succ_names(names.take(k + 1), oc.take(k + 1)) == succ_names(names.take(k), oc.take(k))
            + (match oc[k] {
            Option::None => seq![names[k]@],
            Option::Some(d) => Seq::<Seq<char>>::empty(),
        }),
        fail_pairs(names.take(k + 1), oc.take(k + 1)) == fail_pairs(names.take(k), oc.take(k))
            + (match oc[k] {
            Option::Some(d) => seq![(names[k]@, d@)],
            Option::None => Seq::<(Seq<char>, Seq<char>)>::empty(),
        }),
{
    assert(names.take(k + 1).drop_last() =~= names.take(k));
    assert(oc.take(k + 1).drop_last() =~= oc.take(k));
    assert(names.take(k + 1).last() == names[k]);
    assert(oc.take(k + 1).last() == oc[k]);
}

/// The names of every profile, in storage order: what an export batch
/// will try to copy.
pub fn export_plan(s: &Store) -> (r: Vec<String>)
    ensures
        views_of(r@) == s.names(),
{
    let n = s.profiles.len();
    let mut out: Vec<String> = Vec::new();
    let mut k: usize = 0;
    while k < n
        invariant
            n == s.profiles@.len(),
            k <= n,
            views_of(out@) == s.names().take(k as int),
        decreases n - k,
    {
        let ghost out0 = out@;
        let nm_k = s.profiles[k].name.clone();
        proof {
            assert(s.names().len() == n as int);
            assert(nm_k@ == s.names()[k as int]);
        }
        out.push(nm_k);
        proof {
            assert(out@ == out0.push(nm_k));
            assert(views_of(out0).len() == out0.len());
            assert(s.names().take(k as int).len() == k as int);
            assert(out0.len() == k as int);
            assert(out@.len() == k as int + 1);
            assert(out@[k as int] == nm_k);
            assert(views_of(out@).len() == k as int + 1);
            assert forall|i: int| 0 <= i < k as int + 1 implies views_of(out@)[i] == s.names().take(
                k as int + 1,
            )[i] by {
                assert(views_of(out@)[i] == out@[i]@);
                assert(s.names().take(k as int + 1)[i] == s.names()[i]);
                if i < k as int {
                    assert(out@[i] == out0[i]);
                    assert(views_of(out0)[i] == out0[i]@);
                    assert(views_of(out0)[i] == s.names().take(k as int)[i]);
                } else {
                    assert(out@[i] == nm_k);
                }
            }
            assert(views_of(out@) =~= s.names().take(k as int + 1));
        }
        k += 1;
    }
    proof {
        assert(s.names().take(n as int) =~= s.names());
    }
    out
}

/// Export begins only if the profile directory could be opened:
/// a directory-level failure fails the whole batch; otherwise every
/// profile is scheduled for copying, in storage order.
pub fn export_start(s: &Store, dir_status: Result<(), String>) -> (r: Result<
    Vec<String>,
    AppError,
>)
    ensures
        (match dir_status {
            Result::Ok(()) => (r matches Result::Ok(names) && views_of(names@) == s.names()),
            Result::Err(d) => (r matches Result::Err(e) && e == (AppError::IoError {
                detail: d,
            })),
        }),
{
    match dir_status {
        Ok(()) => Ok(export_plan(s)),
        Err(d) => Err(AppError::IoError { detail: d }),
    }
}

/// Sorts the per-profile copy outcomes into the export result:
/// `outcomes[i]` is `None` when the copy of `names[i]` succeeded, and
/// carries the I/O detail when it failed.
pub fn collect_export(names: Vec<String>, outcomes: Vec<Option<String>>) -> (r: ExportResult)
    requires
        names@.len() == outcomes@.len(),
    ensures
        views_of(r.success@) == succ_names(names@, outcomes@),
        fail_views(r.failed@) == fail_pairs(names@, outcomes@),
        forall|i: int|
            0 <= i < r.failed@.len() ==> (#[trigger] r.failed@[i].error) matches
                AppError::IoError { detail },
{
    let n = names.len();
    let mut success: Vec<String> = Vec::new();
    let mut failed: Vec<ExportError> = Vec::new();
    let mut k: usize = 0;
    while k < n
        invariant
            n == names@.len(),
            n == outcomes@.len(),
            k <= n,
            views_of(success@) == succ_names(names@.take(k as int), outcomes@.take(k as int)),
            fail_views(failed@) == fail_pairs(names@.take(k as int), outcomes@.take(k as int)),
            forall|i: int|
                0 <= i < failed@.len() ==> (#[trigger] failed@[i].error) matches
                    AppError::IoError { detail },
        decreases n - k,
    {
        proof {
            lemma_split_take_step(names@, outcomes@, k as int);
        }
        match &outcomes[k] {
            None => {
                success.push(names[k].clone());
                proof {
                    assert(views_of(success@) =~= succ_names(
                        names@.take(k as int + 1),
                        outcomes@.take(k as int + 1),
                    ));
                    assert(fail_views(failed@) =~= fail_pairs(
                        names@.take(k as int + 1),
                        outcomes@.take(k as int + 1),
                    ));
                }
            },
            Some(d) => {
                let err = ExportError {
                    profile_name: names[k].clone(),
                    error: AppError::IoError { detail: d.clone() },
                };
                failed.push(err);
                proof {
                    assert(views_of(success@) =~= succ_names(
                        names@.take(k as int + 1),
                        outcomes@.take(k as int + 1),
                    ));
                    assert(fail_views(failed@) =~= fail_pairs(
                        names@.take(k as int + 1),
                        outcomes@.take(k as int + 1),
                    ));
                }
            },
        }
        k += 1;
    }
    proof {
        assert(names@.take(n as int) =~= names@);
        assert(outcomes@.take(n as int) =~= outcomes@);
    }
    ExportResult { success, failed }
}

} // verus!
