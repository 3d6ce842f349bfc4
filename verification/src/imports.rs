//! The import aggregator: deduplicates reference records per target module
//! into grouped import lists, in first-occurrence order.

use vstd::prelude::*;

use crate::model::{GroupedImport, GroupedImportV, Import, ImportV};
use crate::strutil::{contains_string, str_eq};
use crate::views::{group_deep_view, seq_deep};

verus! {

broadcast use group_deep_view;

/// The index of the first group for `file`, if one exists.
pub open spec fn find_group(groups: Seq<GroupedImportV>, file: Seq<char>) -> Option<int>
    decreases groups.len(),
{
    if groups.len() == 0 {
        None
    } else if groups[0].file == file {
        Some(0)
    } else {
        match find_group(groups.skip(1), file) {
            None => None,
            Some(j) => Some(j + 1),
        }
    }
}

/// One record folded into the groups: appended to its module's group unless
/// its type name is already there, or opening a new group for a new module.
pub open spec fn add_record(groups: Seq<GroupedImportV>, rec: ImportV) -> Seq<GroupedImportV> {
    match find_group(groups, rec.file) {
        None => groups.push(GroupedImportV { types: seq![rec.import_type], file: rec.file }),
        Some(k) => if groups[k].types.contains(rec.import_type) {
            groups
        } else {
            groups.update(
                k,
                GroupedImportV { types: groups[k].types.push(rec.import_type), file: rec.file },
            )
        },
    }
}

/// All records folded left to right: one group per distinct module key, each
/// holding the distinct type names referenced from it in first-occurrence
/// order.
pub open spec fn group_imports_spec(records: Seq<ImportV>) -> Seq<GroupedImportV>
    decreases records.len(),
{
    if records.len() == 0 {
        Seq::empty()
    } else {
        add_record(group_imports_spec(records.drop_last()), records.last())
    }
}

proof fn lemma_find_group_at(groups: Seq<GroupedImportV>, file: Seq<char>, k: int)
    requires
        0 <= k < groups.len(),
        groups[k].file == file,
        forall|j: int| 0 <= j < k ==> groups[j].file != file,
    ensures
        find_group(groups, file) == Some(k),
    decreases k,
{
    if k == 0 {
    } else {
        assert(groups.skip(1)[k - 1] == groups[k]);
        assert(forall|j: int| 0 <= j < k - 1 ==> groups.skip(1)[j] == groups[j + 1]);
        lemma_find_group_at(groups.skip(1), file, k - 1);
    }
}

proof fn lemma_find_group_none(groups: Seq<GroupedImportV>, file: Seq<char>)
    requires
        forall|j: int| 0 <= j < groups.len() ==> groups[j].file != file,
    ensures
        find_group(groups, file) is None,
    decreases groups.len(),
{
    if groups.len() > 0 {
        assert(forall|j: int| 0 <= j < groups.skip(1).len() ==> groups.skip(1)[j] == groups[j
            + 1]);
        lemma_find_group_none(groups.skip(1), file);
    }
}

/// Finds the first group whose module key reads as `file`.
fn find_group_exec(groups: &Vec<GroupedImport>, file: &str) -> (r: Option<usize>)
    ensures
        match r {
            Some(k) => k < groups@.len() && groups.deep_view()[k as int].file == file@
                && find_group(groups.deep_view(), file@) == Some(k as int),
            None => find_group(groups.deep_view(), file@) is None,
        },
{
    let mut k: usize = 0;
    while k < groups.len()
        invariant
            0 <= k <= groups@.len(),
            forall|j: int| 0 <= j < k ==> groups.deep_view()[j].file != file@,
        decreases groups@.len() - k,
    {
        if str_eq(groups[k].file.as_str(), file) {
            proof {
                lemma_find_group_at(groups.deep_view(), file@, k as int);
            }
            return Some(k);
        }
        k = k + 1;
    }
    proof {
        lemma_find_group_none(groups.deep_view(), file@);
    }
    None
}

/// Groups reference records per target module, exactly as
/// [`group_imports_spec`] states.
pub fn group_imports(records: &Vec<Import>) -> (r: Vec<GroupedImport>)
    ensures
        r.deep_view() == group_imports_spec(records.deep_view()),
{
    let mut groups: Vec<GroupedImport> = Vec::new();
    let ghost recs = records.deep_view();
    let mut i: usize = 0;
    proof {
        assert(recs.take(0) =~= Seq::<ImportV>::empty());
        assert(groups.deep_view() =~= group_imports_spec(recs.take(0)));
    }
    while i < records.len()
        invariant
            0 <= i <= records@.len(),
            recs == records.deep_view(),
            recs.len() == records@.len(),
            groups.deep_view() == group_imports_spec(recs.take(i as int)),
        decreases records@.len() - i,
    {
        let rec = &records[i];
        let ghost groups0 = groups.deep_view();
        proof {
            assert(recs.take(i as int + 1).drop_last() =~= recs.take(i as int));
            assert(recs.take(i as int + 1).last() == recs[i as int]);
            assert(recs[i as int] == records@[i as int].deep_view());
        }
        let found = find_group_exec(&groups, rec.file.as_str());
        match found {
            Option::None => {
                let mut types: Vec<String> = Vec::new();
                types.push(rec.import_type.clone());
                groups.push(GroupedImport { types, file: rec.file.clone() });
                proof {
                    assert(groups.deep_view() =~= groups0.push(
                        GroupedImportV { types: seq![rec.import_type@], file: rec.file@ },
                    ));
                }
            },
            Option::Some(kk) => {
                if contains_string(&groups[kk].types, rec.import_type.as_str()) {
                } else {
                    let mut g = groups.remove(kk);
                    g.types.push(rec.import_type.clone());
                    proof {
                        assert(g.deep_view().types =~= groups0[kk as int].types.push(
                            rec.import_type@,
                        ));
                        assert(g.deep_view() =~= (GroupedImportV {
                            types: groups0[kk as int].types.push(rec.import_type@),
                            file: rec.file@,
                        }));
                    }
                    groups.insert(kk, g);
                    proof {
                        assert(groups.deep_view() =~= groups0.update(
                            kk as int,
                            GroupedImportV {
                                types: groups0[kk as int].types.push(rec.import_type@),
                                file: rec.file@,
                            },
                        ));
                    }
                }
            },
        }
        i = i + 1;
    }
    proof {
        assert(recs.take(recs.len() as int) =~= recs);
    }
    groups
}

} // verus!
