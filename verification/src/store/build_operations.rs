use vstd::prelude::*;
use crate::model::builds::build_model::{BuildModel, ArtifactDependency, BuildArtifact, BuildProfile, BuildTool, OutputType};
use crate::utils::error::{AppError, ErrorKind, Result, fails_with};
use crate::utils::keyed::{
    Keyed, has_key, is_first_key, position_of, contains_key, lemma_has_key_remove, lemma_has_key_push, keys_distinct,
    lemma_push_fresh_keeps_distinct, lemma_remove_keeps_distinct,
};
use crate::utils::text::{to_owned_string, opt_str_to_string, opt_view, name_or_id, concat2, concat4, same_text, opt_str_view, string_views};

verus! {

/// Operations that edit a build model.
pub struct BuildOperations;

/// The parts of a model that an edit keeps, and the modification time that a
/// successful edit renews from the clock, which never reads before 1970.
pub open spec fn same_header(a: BuildModel, b: BuildModel) -> bool {
    &&& a.version == b.version
    &&& a.kind == b.kind
    &&& a.metadata.title == b.metadata.title
    &&& a.metadata.description == b.metadata.description
    &&& a.metadata.created_at == b.metadata.created_at
    &&& b.metadata.updated_at >= 0
}

/// Every dependency connects two artifacts of the model.
pub open spec fn dependencies_hold(m: BuildModel) -> bool {
    forall|i: int| 0 <= i < m.dependencies@.len() ==> {
        &&& has_key(m.artifacts@, (#[trigger] m.dependencies@[i]).from@)
        &&& has_key(m.artifacts@, m.dependencies@[i].to@)
    }
}

/// Whether dependency `d` goes from `from` to `to`.
pub open spec fn is_dependency(d: ArtifactDependency, from: Seq<char>, to: Seq<char>) -> bool {
    d.from@ == from && d.to@ == to
}

/// Whether some dependency goes from `from` to `to`.
pub open spec fn has_dependency(ds: Seq<ArtifactDependency>, from: Seq<char>, to: Seq<char>) -> bool {
    exists|i: int| 0 <= i < ds.len() && is_dependency(#[trigger] ds[i], from, to)
}

/// `i` is the first dependency from `from` to `to`.
pub open spec fn is_first_dependency(ds: Seq<ArtifactDependency>, from: Seq<char>, to: Seq<char>, i: int) -> bool {
    &&& 0 <= i < ds.len()
    &&& is_dependency(ds[i], from, to)
    &&& forall|j: int| 0 <= j < i ==> !is_dependency(#[trigger] ds[j], from, to)
}

/// The dependencies that neither start nor end at `id`, in order.
pub open spec fn dependencies_avoiding(ds: Seq<ArtifactDependency>, id: Seq<char>) -> Seq<ArtifactDependency>
    decreases ds.len(),
{
    if ds.len() == 0 {
        ds
    } else {
        let rest = dependencies_avoiding(ds.drop_last(), id);
        if ds.last().from@ != id && ds.last().to@ != id {
            rest.push(ds.last())
        } else {
            rest
        }
    }
}

/// The kept dependencies are dependencies of the model that avoid `id`.
proof fn lemma_dependencies_avoiding(ds: Seq<ArtifactDependency>, id: Seq<char>)
    ensures
        forall|i: int| 0 <= i < dependencies_avoiding(ds, id).len() ==> {
            &&& (#[trigger] dependencies_avoiding(ds, id)[i]).from@ != id
            &&& dependencies_avoiding(ds, id)[i].to@ != id
            &&& ds.contains(dependencies_avoiding(ds, id)[i])
        },
    decreases ds.len(),
{
    if ds.len() > 0 {
        lemma_dependencies_avoiding(ds.drop_last(), id);
        let rest = dependencies_avoiding(ds.drop_last(), id);
        assert forall|i: int| 0 <= i < rest.len() implies ds.contains(#[trigger] rest[i]) by {
            let j = choose|j: int| 0 <= j < ds.drop_last().len() && ds.drop_last()[j] == rest[i];
            assert(ds[j] == rest[i]);
        }
        assert(ds[ds.len() - 1] == ds.last());
    }
}

/// The position of the first dependency from `from` to `to`.
fn dependency_position(ds: &Vec<ArtifactDependency>, from: &String, to: &String) -> (r: Option<usize>)
    ensures
        match r {
            Some(i) => is_first_dependency(ds@, from@, to@, i as int),
            None => !has_dependency(ds@, from@, to@),
        },
{
    let mut i: usize = 0;
    while i < ds.len()
        invariant
            i <= ds.len(),
            forall|j: int| 0 <= j < i ==> !is_dependency(#[trigger] ds@[j], from@, to@),
        decreases ds.len() - i,
    {
        if same_text(&ds[i].from, from) && same_text(&ds[i].to, to) {
            return Some(i);
        }
        i = i + 1;
    }
    None
}

/// Removes from `ds` (in place) every dependency that starts or ends at `id`.
fn drop_dependencies_of(ds: &mut Vec<ArtifactDependency>, id: &String)
    ensures
        final(ds)@ == dependencies_avoiding(old(ds)@, id@),
{
    let ghost orig = ds@;
    let mut rest: Vec<ArtifactDependency> = Vec::new();
    std::mem::swap(&mut rest, ds);
    let ghost mut n: int = 0;
    while rest.len() > 0
        invariant
            0 <= n <= orig.len(),
            rest@ == orig.skip(n),
            ds@ == dependencies_avoiding(orig.take(n), id@),
        decreases rest@.len(),
    {
        let d = rest.remove(0);
        assert(n < orig.len());
        assert(d == orig[n]);
        assert(rest@ =~= orig.skip(n + 1));
        assert(orig.take(n + 1).drop_last() =~= orig.take(n));
        if !same_text(&d.from, id) && !same_text(&d.to, id) {
            ds.push(d);
        }
        proof {
            n = n + 1;
        }
    }
    assert(orig.take(n) =~= orig);
}

/// What `add_artifact` does; an artifact without an output type is a binary.
pub open spec fn add_artifact_post(
    m0: BuildModel,
    m1: BuildModel,
    id: Seq<char>,
    name: Seq<char>,
    description: Option<Seq<char>>,
    build_tool: Option<BuildTool>,
    output_type: Option<OutputType>,
    source_packages: Seq<Seq<char>>,
    build_file: Option<Seq<char>>,
    profile: Option<BuildProfile>,
    build_args: Option<Seq<char>>,
    r: Result<()>,
) -> bool {
    &&& has_key(m0.artifacts@, id) ==> fails_with(r, ErrorKind::ElementAlreadyExists, "artifact: "@ + id)
    &&& r is Ok <==> !has_key(m0.artifacts@, id)
    &&& r is Err ==> m1 == m0
    &&& r is Ok ==> {
        &&& same_header(m0, m1)
        &&& m1.dependencies == m0.dependencies
        &&& m1.artifacts@.len() == m0.artifacts@.len() + 1
        &&& m1.artifacts@.drop_last() == m0.artifacts@
        &&& ({
            let a = m1.artifacts@.last();
            &&& a.id@ == id
            &&& a.name@ == name
            &&& opt_view(a.description) == description
            &&& a.build_tool == build_tool
            &&& a.output_type == (match output_type { Some(t) => t, None => OutputType::Binary })
            &&& string_views(a.source_packages@) == source_packages
            &&& opt_view(a.build_file) == build_file
            &&& a.profile == profile
            &&& opt_view(a.build_args) == build_args
        })
    }
}

/// What `remove_artifact` does: the first artifact with the ID goes, and so does
/// every dependency from or to it.
pub open spec fn remove_artifact_post(m0: BuildModel, m1: BuildModel, id: Seq<char>, r: Result<()>) -> bool {
    &&& !has_key(m0.artifacts@, id) ==> fails_with(r, ErrorKind::ElementNotFound, "artifact: "@ + id)
    &&& r is Ok <==> has_key(m0.artifacts@, id)
    &&& r is Err ==> m1 == m0
    &&& r is Ok ==> {
        &&& same_header(m0, m1)
        &&& exists|i: int| is_first_key(m0.artifacts@, id, i) && m1.artifacts@ == m0.artifacts@.remove(i)
        &&& m1.dependencies@ == dependencies_avoiding(m0.dependencies@, id)
    }
}

/// What `add_dependency` does.
pub open spec fn add_dependency_post(m0: BuildModel, m1: BuildModel, from: Seq<char>, to: Seq<char>, r: Result<()>) -> bool {
    &&& !has_key(m0.artifacts@, from) ==> fails_with(r, ErrorKind::ElementNotFound, "artifact: "@ + from)
    &&& has_key(m0.artifacts@, from) && !has_key(m0.artifacts@, to)
        ==> fails_with(r, ErrorKind::ElementNotFound, "artifact: "@ + to)
    &&& has_key(m0.artifacts@, from) && has_key(m0.artifacts@, to) && has_dependency(m0.dependencies@, from, to)
        ==> fails_with(r, ErrorKind::ElementAlreadyExists, "dependency: "@ + from + " -> "@ + to)
    &&& r is Ok <==> has_key(m0.artifacts@, from) && has_key(m0.artifacts@, to) && !has_dependency(m0.dependencies@, from, to)
    &&& r is Err ==> m1 == m0
    &&& r is Ok ==> {
        &&& same_header(m0, m1)
        &&& m1.artifacts == m0.artifacts
        &&& m1.dependencies@.len() == m0.dependencies@.len() + 1
        &&& m1.dependencies@.drop_last() == m0.dependencies@
        &&& is_dependency(m1.dependencies@.last(), from, to)
    }
}

/// What `remove_dependency` does.
pub open spec fn remove_dependency_post(m0: BuildModel, m1: BuildModel, from: Seq<char>, to: Seq<char>, r: Result<()>) -> bool {
    &&& !has_dependency(m0.dependencies@, from, to)
        ==> fails_with(r, ErrorKind::ElementNotFound, "dependency: "@ + from + " -> "@ + to)
    &&& r is Ok <==> has_dependency(m0.dependencies@, from, to)
    &&& r is Err ==> m1 == m0
    &&& r is Ok ==> {
        &&& same_header(m0, m1)
        &&& m1.artifacts == m0.artifacts
        &&& exists|i: int| is_first_dependency(m0.dependencies@, from, to, i)
            && m1.dependencies@ == m0.dependencies@.remove(i)
    }
}

impl BuildOperations {
    /// Adds an artifact; its name defaults to its ID.
    pub fn add_artifact(
        model: &mut BuildModel,
        id: &str,
        name: Option<&str>,
        desc: Option<&str>,
        build_tool: Option<BuildTool>,
        output_type: Option<OutputType>,
        source_packages: Vec<String>,
        build_file: Option<&str>,
        profile: Option<BuildProfile>,
        build_args: Option<&str>,
    ) -> (r: Result<()>)
        ensures
            add_artifact_post(
                *old(model),
                *final(model),
                id@,
                name_or_id(name, id),
                opt_str_view(desc),
                build_tool,
                output_type,
                string_views(source_packages@),
                opt_str_view(build_file),
                profile,
                opt_str_view(build_args),
                r,
            ),
            dependencies_hold(*old(model)) ==> dependencies_hold(*final(model)),
            keys_distinct(old(model).artifacts@) ==> keys_distinct(final(model).artifacts@),
    {
        let key = to_owned_string(id);
        if contains_key(&model.artifacts, &key) {
            return Err(AppError::ElementAlreadyExists(concat2("artifact: ", id)));
        }
        let shown = match name {
            Some(n) => n,
            None => id,
        };
        let output = match output_type {
            Some(t) => t,
            None => OutputType::default(),
        };
        let ghost m0 = *model;
        model.artifacts.push(BuildArtifact {
            id: key,
            name: to_owned_string(shown),
            description: opt_str_to_string(desc),
            build_tool,
            output_type: output,
            source_packages,
            build_file: opt_str_to_string(build_file),
            profile,
            build_args: opt_str_to_string(build_args),
        });
        assert(model.artifacts@.drop_last() =~= m0.artifacts@);
        model.touch();
        proof {
            if keys_distinct(m0.artifacts@) {
                lemma_push_fresh_keeps_distinct(m0.artifacts@, model.artifacts@);
            }
            if dependencies_hold(m0) {
                assert forall|i: int| 0 <= i < model.dependencies@.len() implies {
                    &&& has_key(model.artifacts@, (#[trigger] model.dependencies@[i]).from@)
                    &&& has_key(model.artifacts@, model.dependencies@[i].to@)
                } by {
                    lemma_has_key_push(m0.artifacts@, model.artifacts@.last(), model.dependencies@[i].from@);
                    lemma_has_key_push(m0.artifacts@, model.artifacts@.last(), model.dependencies@[i].to@);
                }
            }
        }
        Ok(())
    }

    /// Removes a artifact and every dependency from or to it.
    pub fn remove_artifact(model: &mut BuildModel, id: &str) -> (r: Result<()>)
        ensures
            remove_artifact_post(*old(model), *final(model), id@, r),
            dependencies_hold(*old(model)) ==> dependencies_hold(*final(model)),
            keys_distinct(old(model).artifacts@) ==> keys_distinct(final(model).artifacts@),
    {
        let key = to_owned_string(id);
        let idx = match position_of(&model.artifacts, &key) {
            Some(i) => i,
            None => {
                return Err(AppError::ElementNotFound(concat2("artifact: ", id)));
            },
        };
        let ghost m0 = *model;
        model.artifacts.remove(idx);
        drop_dependencies_of(&mut model.dependencies, &key);
        model.touch();
        proof {
            if keys_distinct(m0.artifacts@) {
                lemma_remove_keeps_distinct(m0.artifacts@, idx as int);
            }
            lemma_dependencies_avoiding(m0.dependencies@, id@);
            if dependencies_hold(m0) {
                let kept = model.dependencies@;
                assert forall|i: int| 0 <= i < kept.len() implies {
                    &&& has_key(model.artifacts@, (#[trigger] kept[i]).from@)
                    &&& has_key(model.artifacts@, kept[i].to@)
                } by {
                    let j = choose|j: int| 0 <= j < m0.dependencies@.len() && m0.dependencies@[j] == kept[i];
                    assert(m0.dependencies@[j] == kept[i]);
                    lemma_has_key_remove(m0.artifacts@, idx as int, kept[i].from@);
                    lemma_has_key_remove(m0.artifacts@, idx as int, kept[i].to@);
                }
            }
        }
        Ok(())
    }

    /// Adds a dependency between two existing artifacts, unless it is already there.
    pub fn add_dependency(model: &mut BuildModel, from: &str, to: &str) -> (r: Result<()>)
        ensures
            add_dependency_post(*old(model), *final(model), from@, to@, r),
            dependencies_hold(*old(model)) ==> dependencies_hold(*final(model)),
    {
        let from_key = to_owned_string(from);
        let to_key = to_owned_string(to);
        if !contains_key(&model.artifacts, &from_key) {
            return Err(AppError::ElementNotFound(concat2("artifact: ", from)));
        }
        if !contains_key(&model.artifacts, &to_key) {
            return Err(AppError::ElementNotFound(concat2("artifact: ", to)));
        }
        match dependency_position(&model.dependencies, &from_key, &to_key) {
            Some(_) => {
                return Err(AppError::ElementAlreadyExists(concat4("dependency: ", from, " -> ", to)));
            },
            None => {},
        }
        let ghost m0 = *model;
        model.dependencies.push(ArtifactDependency { from: from_key, to: to_key });
        assert(model.dependencies@.drop_last() =~= m0.dependencies@);
        model.touch();
        proof {
            if dependencies_hold(m0) {
                assert forall|i: int| 0 <= i < model.dependencies@.len() implies {
                    &&& has_key(model.artifacts@, (#[trigger] model.dependencies@[i]).from@)
                    &&& has_key(model.artifacts@, model.dependencies@[i].to@)
                } by {
                    if i < m0.dependencies@.len() {
                        assert(model.dependencies@[i] == m0.dependencies@[i]);
                    }
                }
            }
        }
        Ok(())
    }

    /// Removes the first dependency from `from` to `to`.
    pub fn remove_dependency(model: &mut BuildModel, from: &str, to: &str) -> (r: Result<()>)
        ensures
            remove_dependency_post(*old(model), *final(model), from@, to@, r),
            dependencies_hold(*old(model)) ==> dependencies_hold(*final(model)),
    {
        let from_key = to_owned_string(from);
        let to_key = to_owned_string(to);
        let idx = match dependency_position(&model.dependencies, &from_key, &to_key) {
            Some(i) => i,
            None => {
                return Err(AppError::ElementNotFound(concat4("dependency: ", from, " -> ", to)));
            },
        };
        let ghost m0 = *model;
        model.dependencies.remove(idx);
        model.touch();
        proof {
            if dependencies_hold(m0) {
                assert forall|i: int| 0 <= i < model.dependencies@.len() implies {
                    &&& has_key(model.artifacts@, (#[trigger] model.dependencies@[i]).from@)
                    &&& has_key(model.artifacts@, model.dependencies@[i].to@)
                } by {
                    if i < idx {
                        assert(model.dependencies@[i] == m0.dependencies@[i]);
                    } else {
                        assert(model.dependencies@[i] == m0.dependencies@[i + 1]);
                    }
                }
            }
        }
        Ok(())
    }
}

/// Dependencies that never touch `id` are all kept by `dependencies_avoiding`.
proof fn lemma_avoiding_untouched(ds: Seq<ArtifactDependency>, id: Seq<char>)
    requires
        forall|i: int| 0 <= i < ds.len() ==> (#[trigger] ds[i]).from@ != id && ds[i].to@ != id,
    ensures
        dependencies_avoiding(ds, id) == ds,
    decreases ds.len(),
{
    if ds.len() > 0 {
        lemma_avoiding_untouched(ds.drop_last(), id);
        assert(ds[ds.len() - 1] == ds.last());
        assert(ds.drop_last().push(ds.last()) =~= ds);
    }
}

/// Adding an artifact and then removing it by the same ID succeeds and gives
/// back the artifacts and the dependencies of the model before, when every
/// dependency connected artifacts of that model.
pub proof fn lemma_add_then_remove_artifact(
    m0: BuildModel,
    m1: BuildModel,
    m2: BuildModel,
    id: Seq<char>,
    name: Seq<char>,
    description: Option<Seq<char>>,
    build_tool: Option<BuildTool>,
    output_type: Option<OutputType>,
    source_packages: Seq<Seq<char>>,
    build_file: Option<Seq<char>>,
    profile: Option<BuildProfile>,
    build_args: Option<Seq<char>>,
    r1: Result<()>,
    r2: Result<()>,
)
    requires
        dependencies_hold(m0),
        add_artifact_post(m0, m1, id, name, description, build_tool, output_type, source_packages,
            build_file, profile, build_args, r1),
        r1 is Ok,
        remove_artifact_post(m1, m2, id, r2),
    ensures
        r2 is Ok,
        m2.artifacts@ == m0.artifacts@,
        m2.dependencies@ == m0.dependencies@,
{
    let n = m0.artifacts@.len() as int;
    assert(m1.artifacts@[n].key() == id);
    assert(has_key(m1.artifacts@, id));
    let i = choose|i: int| is_first_key(m1.artifacts@, id, i) && m2.artifacts@ == m1.artifacts@.remove(i);
    if i < n {
        assert(m0.artifacts@[i] == m1.artifacts@[i]);
        assert(has_key(m0.artifacts@, id));
    }
    assert(i == n);
    assert(m2.artifacts@ =~= m0.artifacts@);
    assert forall|k: int| 0 <= k < m0.dependencies@.len() implies
        (#[trigger] m0.dependencies@[k]).from@ != id && m0.dependencies@[k].to@ != id by {
        assert(has_key(m0.artifacts@, m0.dependencies@[k].from@));
        assert(has_key(m0.artifacts@, m0.dependencies@[k].to@));
    }
    lemma_avoiding_untouched(m0.dependencies@, id);
}

} // verus!
