//! Keeping declarations apart by name: a list of declarations holds each
//! name once.

use crate::elm::model::{decl_models, Decl, DeclModel};
use crate::elm::translate::declares;
use crate::error::{failure, Error, ErrorKind, ErrorModel};
use crate::text::str_eq;
use vstd::prelude::*;
use vstd::std_specs::iter::IteratorSpec;
use vstd::string::*;

verus! {

/// The index of the first declaration named `name`, or the number of
/// declarations when there is none.
pub open spec fn first_named(decls: Seq<DeclModel>, name: Seq<char>) -> int
    decreases decls.len(),
{
    if decls.len() == 0 {
        0
    } else if decls[0].name() == name {
        0
    } else {
        1 + first_named(decls.drop_first(), name)
    }
}

/// `first_named` gives the first index that holds the name.
pub proof fn lemma_first_named(decls: Seq<DeclModel>, name: Seq<char>)
    ensures
        0 <= first_named(decls, name) <= decls.len(),
        first_named(decls, name) < decls.len() ==> decls[first_named(decls, name)].name() == name,
        forall|i: int| 0 <= i < first_named(decls, name) ==> (#[trigger] decls[i]).name() != name,
    decreases decls.len(),
{
    if decls.len() > 0 && decls[0].name() != name {
        let rest = decls.drop_first();
        lemma_first_named(rest, name);
        assert forall|i: int| 0 <= i < first_named(decls, name) implies (#[trigger] decls[i]).name()
            != name by {
            if i > 0 {
                assert(decls[i] == rest[i - 1]);
            }
        }
    }
}

/// The position of the first declaration of `decls` named `name`.
pub fn position_of_decl(decls: &Vec<Decl>, name: &str) -> (at: Option<usize>)
    ensures
        match at {
            Some(i) => i < decls@.len() && i == first_named(decl_models(decls@), name@),
            None => first_named(decl_models(decls@), name@) == decls@.len(),
        },
{
    let ghost models = decl_models(decls@);
    let mut i: usize = 0;
    proof {
        assert(models.skip(0) =~= models);
    }
    while i < decls.len()
        invariant
            i <= decls@.len(),
            models == decl_models(decls@),
            first_named(models, name@) == i + first_named(models.skip(i as int), name@),
        decreases decls@.len() - i,
    {
        proof {
            assert(models.skip(i as int)[0] == models[i as int]);
            assert(models.skip(i as int).drop_first() =~= models.skip(i + 1));
        }
        if str_eq(decls[i].name().orig(), name) {
            return Some(i);
        }
        i += 1;
    }
    None
}

/// No two of the declarations have the same name.
pub open spec fn distinct_names(decls: Seq<DeclModel>) -> bool {
    forall|i: int, j: int|
        0 <= i < j < decls.len() ==> (#[trigger] decls[i]).name() != (#[trigger] decls[j]).name()
}

/// The failure of two different declarations under one name.
pub open spec fn conflict_failure(name: Seq<char>) -> ErrorModel {
    failure(
        ErrorKind::NameConflict,
        "the name `"@ + name + "` is declared in two different ways"@,
    )
}

/// The declarations `decls` with `decl` among them: `decl` comes last where
/// its name is new, and nothing changes where the same declaration is there
/// already. A different declaration under the same name is refused.
pub open spec fn with_decl(decls: Seq<DeclModel>, decl: DeclModel) -> Result<
    Seq<DeclModel>,
    ErrorModel,
> {
    let at = first_named(decls, decl.name());
    if at >= decls.len() {
        Ok(decls.push(decl))
    } else if decls[at] == decl {
        Ok(decls)
    } else {
        Err(conflict_failure(decl.name()))
    }
}

/// The declarations `decls` with those of `more` among them, taken one
/// after the other.
pub open spec fn merged(decls: Seq<DeclModel>, more: Seq<DeclModel>) -> Result<
    Seq<DeclModel>,
    ErrorModel,
>
    decreases more.len(),
{
    if more.len() == 0 {
        Ok(decls)
    } else {
        match merged(decls, more.drop_last()) {
            Err(e) => Err(e),
            Ok(front) => with_decl(front, more.last()),
        }
    }
}

/// Adding a declaration keeps the names apart, keeps what was there in its
/// place, and adds nothing but the declaration.
pub proof fn lemma_with_decl(decls: Seq<DeclModel>, decl: DeclModel)
    requires
        with_decl(decls, decl) is Ok,
    ensures
        distinct_names(decls) ==> distinct_names(with_decl(decls, decl)->Ok_0),
        with_decl(decls, decl)->Ok_0.len() >= decls.len(),
        with_decl(decls, decl)->Ok_0.take(decls.len() as int) == decls,
        declares(with_decl(decls, decl)->Ok_0, decl.name()),
        forall|i: int|
            0 <= i < with_decl(decls, decl)->Ok_0.len() ==> (#[trigger] with_decl(
                decls,
                decl,
            )->Ok_0[i]) == decl || (i < decls.len() && with_decl(decls, decl)->Ok_0[i] == decls[i]),
{
    let r = with_decl(decls, decl)->Ok_0;
    let at = first_named(decls, decl.name());
    lemma_first_named(decls, decl.name());
    if at >= decls.len() {
        assert(r.take(decls.len() as int) =~= decls);
        assert(r[decls.len() as int].name() == decl.name());
        if distinct_names(decls) {
            assert forall|i: int, j: int| 0 <= i < j < r.len() implies (#[trigger] r[i]).name() != (
            #[trigger] r[j]).name() by {
                if j < decls.len() {
                    assert(r[i] == decls[i] && r[j] == decls[j]);
                } else {
                    assert(r[i] == decls[i]);
                }
            }
        }
    } else {
        assert(r.take(decls.len() as int) =~= decls);
        assert(r[at].name() == decl.name());
    }
}

/// Merging keeps the names apart, keeps what was there in its place,
/// declares every name of both lists, and holds nothing but what the two
/// lists hold.
pub proof fn lemma_merged(decls: Seq<DeclModel>, more: Seq<DeclModel>)
    requires
        merged(decls, more) is Ok,
    ensures
        distinct_names(decls) ==> distinct_names(merged(decls, more)->Ok_0),
        merged(decls, more)->Ok_0.len() >= decls.len(),
        merged(decls, more)->Ok_0.take(decls.len() as int) == decls,
        forall|i: int|
            0 <= i < more.len() ==> declares(merged(decls, more)->Ok_0, (#[trigger] more[i]).name()),
        forall|i: int|
            0 <= i < decls.len() ==> declares(
                merged(decls, more)->Ok_0,
                (#[trigger] decls[i]).name(),
            ),
        forall|i: int|
            0 <= i < merged(decls, more)->Ok_0.len() ==> decls.contains(
                #[trigger] merged(decls, more)->Ok_0[i],
            ) || more.contains(merged(decls, more)->Ok_0[i]),
    decreases more.len(),
{
    let r = merged(decls, more)->Ok_0;
    if more.len() == 0 {
        assert(r.take(decls.len() as int) =~= decls);
        assert forall|i: int| 0 <= i < decls.len() implies declares(
            r,
            (#[trigger] decls[i]).name(),
        ) by {
            assert(r[i].name() == decls[i].name());
        }
        assert forall|i: int| 0 <= i < r.len() implies decls.contains(#[trigger] r[i]) by {
            assert(decls[i] == r[i]);
        }
    } else {
        let front_more = more.drop_last();
        lemma_merged(decls, front_more);
        let front = merged(decls, front_more)->Ok_0;
        lemma_with_decl(front, more.last());
        assert(r.take(decls.len() as int) =~= front.take(decls.len() as int)) by {
            assert(r.take(front.len() as int) == front);
            assert forall|k: int| 0 <= k < decls.len() implies r[k] == front[k] by {
                assert(r.take(front.len() as int)[k] == r[k]);
            }
        }
        assert forall|k: int| 0 <= k < front.len() implies r[k] == front[k] by {
            assert(r.take(front.len() as int)[k] == r[k]);
        }
        assert forall|i: int| 0 <= i < more.len() implies declares(
            r,
            (#[trigger] more[i]).name(),
        ) by {
            if i < front_more.len() {
                assert(front_more[i] == more[i]);
                assert(declares(front, front_more[i].name()));
                let k = choose|k: int|
                    0 <= k < front.len() && (#[trigger] front[k]).name() == more[i].name();
                assert(r[k].name() == more[i].name());
            }
        }
        assert forall|i: int| 0 <= i < decls.len() implies declares(
            r,
            (#[trigger] decls[i]).name(),
        ) by {
            assert(declares(front, decls[i].name()));
            let k = choose|k: int|
                0 <= k < front.len() && (#[trigger] front[k]).name() == decls[i].name();
            assert(r[k].name() == decls[i].name());
        }
        assert forall|i: int| 0 <= i < r.len() implies decls.contains(#[trigger] r[i])
            || more.contains(r[i]) by {
            if r[i] == more.last() {
                assert(more[more.len() - 1] == r[i]);
            } else {
                assert(i < front.len() && r[i] == front[i]);
                if front_more.contains(front[i]) {
                    let k = choose|k: int| 0 <= k < front_more.len() && front_more[k] == front[i];
                    assert(more[k] == r[i]);
                }
            }
        }
    }
}

/// Once a declaration is refused, the whole merge fails with its failure.
pub proof fn lemma_merged_fails(decls: Seq<DeclModel>, more: Seq<DeclModel>, at: int)
    requires
        0 <= at < more.len(),
        merged(decls, more.take(at)) is Ok,
        with_decl(merged(decls, more.take(at))->Ok_0, more[at]) is Err,
    ensures
        merged(decls, more) == Err::<Seq<DeclModel>, ErrorModel>(
            with_decl(merged(decls, more.take(at))->Ok_0, more[at])->Err_0,
        ),
    decreases more.len(),
{
    if at == more.len() - 1 {
        assert(more.drop_last() =~= more.take(at));
    } else {
        assert(more.drop_last().take(at) =~= more.take(at));
        lemma_merged_fails(decls, more.drop_last(), at);
    }
}

/// Adds the declarations of `more` to `decls`, each name once. Where a
/// declaration is refused, `decls` still starts with what it held.
pub fn merge_decls(decls: &mut Vec<Decl>, more: Vec<Decl>) -> (r: Result<(), Error>)
    ensures
        match r {
            Ok(_) => merged(decl_models(old(decls)@), decl_models(more@)) == Ok::<
                Seq<DeclModel>,
                ErrorModel,
            >(decl_models(final(decls)@)),
            Err(e) => merged(decl_models(old(decls)@), decl_models(more@)) == Err::<
                Seq<DeclModel>,
                ErrorModel,
            >(e@),
        },
        final(decls)@.len() >= old(decls)@.len(),
        final(decls)@.take(old(decls)@.len() as int) == old(decls)@,
{
    let ghost base = decl_models(decls@);
    let ghost added = decl_models(more@);
    proof {
        assert(added.take(0) =~= Seq::empty());
        assert(decls@.take(decls@.len() as int) =~= decls@);
    }
    for decl in it: more.into_iter()
        invariant
            it.seq() == more@,
            base == decl_models(old(decls)@),
            added == decl_models(more@),
            decls@.len() >= old(decls)@.len(),
            decls@.take(old(decls)@.len() as int) == old(decls)@,
            merged(base, added.take(it.index() as int)) == Ok::<Seq<DeclModel>, ErrorModel>(
                decl_models(decls@),
            ),
    {
        let ghost done = it.index() as int;
        let ghost before = decl_models(decls@);
        proof {
            assert(decl == more@[done]);
            assert(added[done] == decl@);
            assert(added.take(done + 1).drop_last() =~= added.take(done));
            assert(added.take(done + 1).last() == decl@);
            lemma_first_named(before, decl@.name());
        }
        match position_of_decl(decls, decl.name().orig()) {
            None => {
                let ghost held = decls@;
                decls.push(decl);
                proof {
                    assert(decl_models(decls@) =~= before.push(decl@));
                    assert(decls@.take(old(decls)@.len() as int) =~= held.take(
                        old(decls)@.len() as int,
                    ));
                }
            },
            Some(i) => {
                if !decls[i].same_as(&decl) {
                    proof {
                        lemma_merged_fails(base, added, done);
                    }
                    let mut cause = String::from_str("the name `");
                    cause.append(decl.name().orig());
                    cause.append("` is declared in two different ways");
                    return Err(Error::new(ErrorKind::NameConflict, cause));
                }
            },
        }
    }
    proof {
        assert(added.take(more@.len() as int) =~= added);
    }
    Ok(())
}

} // verus!
