use vstd::prelude::*;
use crate::model::delivery::delivery_model::{DeliveryModel, DeliveryPackage, DeliveryType};
use crate::utils::error::{AppError, ErrorKind, Result, fails_with};
use crate::utils::keyed::{
    Keyed, has_key, is_first_key, position_of, contains_key, keys_distinct, lemma_push_fresh_keeps_distinct,
    lemma_remove_keeps_distinct,
};
use crate::utils::text::{to_owned_string, opt_str_to_string, opt_view, name_or_id, concat2, opt_str_view, string_views};

verus! {

/// Operations that edit a delivery model.
pub struct DeliveryOperations;

/// The parts of a model that an edit keeps, and the modification time that a
/// successful edit renews from the clock, which never reads before 1970.
pub open spec fn same_header(a: DeliveryModel, b: DeliveryModel) -> bool {
    &&& a.version == b.version
    &&& a.kind == b.kind
    &&& a.metadata.title == b.metadata.title
    &&& a.metadata.description == b.metadata.description
    &&& a.metadata.created_at == b.metadata.created_at
    &&& b.metadata.updated_at >= 0
}

/// What `add_package` does; a package without a delivery type is a container image.
pub open spec fn add_package_post(
    m0: DeliveryModel,
    m1: DeliveryModel,
    id: Seq<char>,
    name: Seq<char>,
    description: Option<Seq<char>>,
    version: Option<Seq<char>>,
    delivery_type: Option<DeliveryType>,
    artifacts: Seq<Seq<char>>,
    registry: Option<Seq<char>>,
    r: Result<()>,
) -> bool {
    &&& has_key(m0.packages@, id) ==> fails_with(r, ErrorKind::ElementAlreadyExists, "package: "@ + id)
    &&& r is Ok <==> !has_key(m0.packages@, id)
    &&& r is Err ==> m1 == m0
    &&& r is Ok ==> {
        &&& same_header(m0, m1)
        &&& m1.packages@.len() == m0.packages@.len() + 1
        &&& m1.packages@.drop_last() == m0.packages@
        &&& ({
            let p = m1.packages@.last();
            &&& p.id@ == id
            &&& p.name@ == name
            &&& opt_view(p.description) == description
            &&& opt_view(p.version) == version
            &&& p.delivery_type == (match delivery_type { Some(t) => t, None => DeliveryType::ContainerImage })
            &&& string_views(p.artifacts@) == artifacts
            &&& opt_view(p.registry) == registry
        })
    }
}

/// What `remove_package` does.
pub open spec fn remove_package_post(m0: DeliveryModel, m1: DeliveryModel, id: Seq<char>, r: Result<()>) -> bool {
    &&& !has_key(m0.packages@, id) ==> fails_with(r, ErrorKind::ElementNotFound, "package: "@ + id)
    &&& r is Ok <==> has_key(m0.packages@, id)
    &&& r is Err ==> m1 == m0
    &&& r is Ok ==> {
        &&& same_header(m0, m1)
        &&& exists|i: int| is_first_key(m0.packages@, id, i) && m1.packages@ == m0.packages@.remove(i)
    }
}

impl DeliveryOperations {
    /// Adds a package; its name defaults to its ID.
    pub fn add_package(
        model: &mut DeliveryModel,
        id: &str,
        name: Option<&str>,
        desc: Option<&str>,
        version: Option<&str>,
        delivery_type: Option<DeliveryType>,
        artifacts: Vec<String>,
        registry: Option<&str>,
    ) -> (r: Result<()>)
        ensures
            add_package_post(
                *old(model),
                *final(model),
                id@,
                name_or_id(name, id),
                opt_str_view(desc),
                opt_str_view(version),
                delivery_type,
                string_views(artifacts@),
                opt_str_view(registry),
                r,
            ),
            keys_distinct(old(model).packages@) ==> keys_distinct(final(model).packages@),
    {
        let key = to_owned_string(id);
        if contains_key(&model.packages, &key) {
            return Err(AppError::ElementAlreadyExists(concat2("package: ", id)));
        }
        let shown = match name {
            Some(n) => n,
            None => id,
        };
        let kind = match delivery_type {
            Some(t) => t,
            None => DeliveryType::default(),
        };
        let ghost m0 = *model;
        model.packages.push(DeliveryPackage {
            id: key,
            name: to_owned_string(shown),
            description: opt_str_to_string(desc),
            version: opt_str_to_string(version),
            delivery_type: kind,
            artifacts,
            registry: opt_str_to_string(registry),
        });
        assert(model.packages@.drop_last() =~= m0.packages@);
        model.touch();
        proof {
            if keys_distinct(m0.packages@) {
                lemma_push_fresh_keeps_distinct(m0.packages@, model.packages@);
            }
        }
        Ok(())
    }

    /// Removes a package; nothing else changes.
    pub fn remove_package(model: &mut DeliveryModel, id: &str) -> (r: Result<()>)
        ensures
            remove_package_post(*old(model), *final(model), id@, r),
            keys_distinct(old(model).packages@) ==> keys_distinct(final(model).packages@),
    {
        let key = to_owned_string(id);
        let idx = match position_of(&model.packages, &key) {
            Some(i) => i,
            None => {
                return Err(AppError::ElementNotFound(concat2("package: ", id)));
            },
        };
        let ghost m0 = *model;
        model.packages.remove(idx);
        model.touch();
        proof {
            if keys_distinct(m0.packages@) {
                lemma_remove_keeps_distinct(m0.packages@, idx as int);
            }
        }
        Ok(())
    }
}

/// Adding a package and then removing it by the same ID succeeds and gives
/// back the packages of the model before.
pub proof fn lemma_add_then_remove_package(
    m0: DeliveryModel,
    m1: DeliveryModel,
    m2: DeliveryModel,
    id: Seq<char>,
    name: Seq<char>,
    description: Option<Seq<char>>,
    version: Option<Seq<char>>,
    delivery_type: Option<DeliveryType>,
    artifacts: Seq<Seq<char>>,
    registry: Option<Seq<char>>,
    r1: Result<()>,
    r2: Result<()>,
)
    requires
        add_package_post(m0, m1, id, name, description, version, delivery_type, artifacts, registry, r1),
        r1 is Ok,
        remove_package_post(m1, m2, id, r2),
    ensures
        r2 is Ok,
        m2.packages@ == m0.packages@,
{
    let n = m0.packages@.len() as int;
    assert(m1.packages@[n].key() == id);
    assert(has_key(m1.packages@, id));
    let i = choose|i: int| is_first_key(m1.packages@, id, i) && m2.packages@ == m1.packages@.remove(i);
    if i < n {
        assert(m0.packages@[i] == m1.packages@[i]);
        assert(has_key(m0.packages@, id));
    }
    assert(i == n);
    assert(m2.packages@ =~= m0.packages@);
}

} // verus!
