//! The known types of entities and of relationships.

use vstd::prelude::*;

use crate::text;

verus! {

/// What kind of thing an entity is.
#[derive(Clone, Copy, Debug, PartialEq, Eq, Structural)]
pub enum EntityType {
    Person,
    Organization,
    Company,
    Institution,
    GovernmentAgency,
    PoliticalParty,
    MilitaryUnit,
    Product,
    City,
    Country,
    Technology,
    PhysicalObject,
    WorkOfArt,
    Other,
}

/// The name of a type: capitals, with underscores between words.
pub open spec fn entity_type_name(t: EntityType) -> Seq<char> {
    match t {
        EntityType::Person => "PERSON"@,
        EntityType::Organization => "ORGANIZATION"@,
        EntityType::Company => "COMPANY"@,
        EntityType::Institution => "INSTITUTION"@,
        EntityType::GovernmentAgency => "GOVERNMENT_AGENCY"@,
        EntityType::PoliticalParty => "POLITICAL_PARTY"@,
        EntityType::MilitaryUnit => "MILITARY_UNIT"@,
        EntityType::Product => "PRODUCT"@,
        EntityType::City => "CITY"@,
        EntityType::Country => "COUNTRY"@,
        EntityType::Technology => "TECHNOLOGY"@,
        EntityType::PhysicalObject => "PHYSICAL_OBJECT"@,
        EntityType::WorkOfArt => "WORK_OF_ART"@,
        EntityType::Other => "OTHER"@,
    }
}

/// The type with the name `s`.
pub open spec fn entity_type_named(s: Seq<char>) -> Option<EntityType> {
    if exists|t: EntityType| #[trigger] entity_type_name(t) == s {
        Some(choose|t: EntityType| #[trigger] entity_type_name(t) == s)
    } else {
        None
    }
}

/// The type that `s` names loosely: white space around it, case, and spaces and
/// dashes for underscores make no difference, and an unknown name is
/// [`EntityType::Other`].
pub open spec fn entity_type_loosely(s: Seq<char>) -> EntityType {
    match entity_type_named(text::underscored(text::upper(text::trimmed(s)))) {
        Some(t) => t,
        None => EntityType::Other,
    }
}

/// No two types have one name.
proof fn lemma_entity_types_differ(a: EntityType, b: EntityType)
    requires
        entity_type_name(a) == entity_type_name(b),
    ensures
        a == b,
{
    reveal_strlit("PERSON");
    reveal_strlit("ORGANIZATION");
    reveal_strlit("COMPANY");
    reveal_strlit("INSTITUTION");
    reveal_strlit("GOVERNMENT_AGENCY");
    reveal_strlit("POLITICAL_PARTY");
    reveal_strlit("MILITARY_UNIT");
    reveal_strlit("PRODUCT");
    reveal_strlit("CITY");
    reveal_strlit("COUNTRY");
    reveal_strlit("TECHNOLOGY");
    reveal_strlit("PHYSICAL_OBJECT");
    reveal_strlit("WORK_OF_ART");
    reveal_strlit("OTHER");
    let x = entity_type_name(a);
    let y = entity_type_name(b);
    assert(x.len() == y.len());
    assert(x[0] == y[0]);
    assert(x[2] == y[2]);
}

/// A type is the one that its name names.
pub proof fn law_entity_types_are_read_back(t: EntityType)
    ensures
        entity_type_named(entity_type_name(t)) == Some(t),
{
    let s = entity_type_name(t);
    let found = choose|u: EntityType| #[trigger] entity_type_name(u) == s;
    assert(entity_type_name(found) == s);
    lemma_entity_types_differ(found, t);
}

/// The place of a type among all types.
spec fn entity_type_rank(t: EntityType) -> int {
    match t {
        EntityType::Person => 0,
        EntityType::Organization => 1,
        EntityType::Company => 2,
        EntityType::Institution => 3,
        EntityType::GovernmentAgency => 4,
        EntityType::PoliticalParty => 5,
        EntityType::MilitaryUnit => 6,
        EntityType::Product => 7,
        EntityType::City => 8,
        EntityType::Country => 9,
        EntityType::Technology => 10,
        EntityType::PhysicalObject => 11,
        EntityType::WorkOfArt => 12,
        EntityType::Other => 13,
    }
}

impl EntityType {
    /// The name of the type.
    pub fn value(&self) -> (r: &'static str)
        ensures
            r@ == entity_type_name(*self),
    {
        match self {
            EntityType::Person => "PERSON",
            EntityType::Organization => "ORGANIZATION",
            EntityType::Company => "COMPANY",
            EntityType::Institution => "INSTITUTION",
            EntityType::GovernmentAgency => "GOVERNMENT_AGENCY",
            EntityType::PoliticalParty => "POLITICAL_PARTY",
            EntityType::MilitaryUnit => "MILITARY_UNIT",
            EntityType::Product => "PRODUCT",
            EntityType::City => "CITY",
            EntityType::Country => "COUNTRY",
            EntityType::Technology => "TECHNOLOGY",
            EntityType::PhysicalObject => "PHYSICAL_OBJECT",
            EntityType::WorkOfArt => "WORK_OF_ART",
            EntityType::Other => "OTHER",
        }
    }

    /// All types, each once.
    pub fn all() -> (r: Vec<EntityType>)
        ensures
            forall|t: EntityType| r@.contains(t),
            r@.no_duplicates(),
    {
        let r = vec![
            EntityType::Person,
            EntityType::Organization,
            EntityType::Company,
            EntityType::Institution,
            EntityType::GovernmentAgency,
            EntityType::PoliticalParty,
            EntityType::MilitaryUnit,
            EntityType::Product,
            EntityType::City,
            EntityType::Country,
            EntityType::Technology,
            EntityType::PhysicalObject,
            EntityType::WorkOfArt,
            EntityType::Other,
        ];
        assert forall|t: EntityType| r@.contains(t) by {
            match t {
                EntityType::Person => assert(r@[0] == t),
                EntityType::Organization => assert(r@[1] == t),
                EntityType::Company => assert(r@[2] == t),
                EntityType::Institution => assert(r@[3] == t),
                EntityType::GovernmentAgency => assert(r@[4] == t),
                EntityType::PoliticalParty => assert(r@[5] == t),
                EntityType::MilitaryUnit => assert(r@[6] == t),
                EntityType::Product => assert(r@[7] == t),
                EntityType::City => assert(r@[8] == t),
                EntityType::Country => assert(r@[9] == t),
                EntityType::Technology => assert(r@[10] == t),
                EntityType::PhysicalObject => assert(r@[11] == t),
                EntityType::WorkOfArt => assert(r@[12] == t),
                EntityType::Other => assert(r@[13] == t),
            }
        }
        assert forall|i: int| 0 <= i < 14 implies entity_type_rank(#[trigger] r@[i]) == i by {
            if i == 0 {
                assert(r@[0] == EntityType::Person);
            } else if i == 1 {
                assert(r@[1] == EntityType::Organization);
            } else if i == 2 {
                assert(r@[2] == EntityType::Company);
            } else if i == 3 {
                assert(r@[3] == EntityType::Institution);
            } else if i == 4 {
                assert(r@[4] == EntityType::GovernmentAgency);
            } else if i == 5 {
                assert(r@[5] == EntityType::PoliticalParty);
            } else if i == 6 {
                assert(r@[6] == EntityType::MilitaryUnit);
            } else if i == 7 {
                assert(r@[7] == EntityType::Product);
            } else if i == 8 {
                assert(r@[8] == EntityType::City);
            } else if i == 9 {
                assert(r@[9] == EntityType::Country);
            } else if i == 10 {
                assert(r@[10] == EntityType::Technology);
            } else if i == 11 {
                assert(r@[11] == EntityType::PhysicalObject);
            } else if i == 12 {
                assert(r@[12] == EntityType::WorkOfArt);
            } else if i == 13 {
                assert(r@[13] == EntityType::Other);
            }
        }
        r
    }

    /// The type with the name `s`.
    pub fn parse(s: &str) -> (r: Option<EntityType>)
        ensures
            r == entity_type_named(s@),
    {
        let all = EntityType::all();
        let mut i: usize = 0;
        while i < all.len()
            invariant
                i <= all@.len(),
                forall|t: EntityType| all@.contains(t),
                forall|k: int| 0 <= k < i ==> entity_type_name(#[trigger] all@[k]) != s@,
            decreases all.len() - i,
        {
            if text::same(s, all[i].value()) {
                proof {
                    law_entity_types_are_read_back(all@[i as int]);
                }
                return Some(all[i]);
            }
            i += 1;
        }
        assert forall|t: EntityType| #[trigger] entity_type_name(t) != s@ by {
            assert(all@.contains(t));
        }
        None
    }

    /// The type that `s` names loosely.
    pub fn from_loose(s: &str) -> (r: EntityType)
        ensures
            r == entity_type_loosely(s@),
    {
        let t = text::trim(s);
        let u = text::to_upper(t.as_str());
        match EntityType::parse(text::underscore(u.as_str()).as_str()) {
            Some(t) => t,
            None => EntityType::Other,
        }
    }
}

/// How one entity is related to another. Of a pair of types that state one
/// relation in two directions, the one that stands first is the canonical one.
#[derive(Clone, Copy, Debug, PartialEq, Eq, Structural)]
pub enum PredicateType {
    RelatedTo,
    PartOf,
    ComposedOf,
    IsUsedBy,
    Uses,
    DevelopedBy,
    FoundedBy,
    CreatedBy,
    InventedBy,
    PublishedBy,
    OwnedBy,
    EvidencedBy,
    LocatedIn,
    WorksFor,
    HasProperty,
    Succeeds,
    Precedes,
    MeasuredBy,
    Measures,
    DerivesFrom,
}

/// The name of a type: capitals, with underscores between words.
pub open spec fn predicate_type_name(t: PredicateType) -> Seq<char> {
    match t {
        PredicateType::RelatedTo => "RELATED_TO"@,
        PredicateType::PartOf => "PART_OF"@,
        PredicateType::ComposedOf => "COMPOSED_OF"@,
        PredicateType::IsUsedBy => "IS_USED_BY"@,
        PredicateType::Uses => "USES"@,
        PredicateType::DevelopedBy => "DEVELOPED_BY"@,
        PredicateType::FoundedBy => "FOUNDED_BY"@,
        PredicateType::CreatedBy => "CREATED_BY"@,
        PredicateType::InventedBy => "INVENTED_BY"@,
        PredicateType::PublishedBy => "PUBLISHED_BY"@,
        PredicateType::OwnedBy => "OWNED_BY"@,
        PredicateType::EvidencedBy => "EVIDENCED_BY"@,
        PredicateType::LocatedIn => "LOCATED_IN"@,
        PredicateType::WorksFor => "WORKS_FOR"@,
        PredicateType::HasProperty => "HAS_PROPERTY"@,
        PredicateType::Succeeds => "SUCCEEDS"@,
        PredicateType::Precedes => "PRECEDES"@,
        PredicateType::MeasuredBy => "MEASURED_BY"@,
        PredicateType::Measures => "MEASURES"@,
        PredicateType::DerivesFrom => "DERIVES_FROM"@,
    }
}

/// The type with the name `s`.
pub open spec fn predicate_type_named(s: Seq<char>) -> Option<PredicateType> {
    if exists|t: PredicateType| #[trigger] predicate_type_name(t) == s {
        Some(choose|t: PredicateType| #[trigger] predicate_type_name(t) == s)
    } else {
        None
    }
}

/// The type that `s` names loosely: white space around it, case, and spaces and
/// dashes for underscores make no difference, and an unknown name is
/// [`PredicateType::RelatedTo`].
pub open spec fn predicate_type_loosely(s: Seq<char>) -> PredicateType {
    match predicate_type_named(text::underscored(text::upper(text::trimmed(s)))) {
        Some(t) => t,
        None => PredicateType::RelatedTo,
    }
}

/// No two types have one name.
proof fn lemma_predicate_types_differ(a: PredicateType, b: PredicateType)
    requires
        predicate_type_name(a) == predicate_type_name(b),
    ensures
        a == b,
{
    reveal_strlit("RELATED_TO");
    reveal_strlit("PART_OF");
    reveal_strlit("COMPOSED_OF");
    reveal_strlit("IS_USED_BY");
    reveal_strlit("USES");
    reveal_strlit("DEVELOPED_BY");
    reveal_strlit("FOUNDED_BY");
    reveal_strlit("CREATED_BY");
    reveal_strlit("INVENTED_BY");
    reveal_strlit("PUBLISHED_BY");
    reveal_strlit("OWNED_BY");
    reveal_strlit("EVIDENCED_BY");
    reveal_strlit("LOCATED_IN");
    reveal_strlit("WORKS_FOR");
    reveal_strlit("HAS_PROPERTY");
    reveal_strlit("SUCCEEDS");
    reveal_strlit("PRECEDES");
    reveal_strlit("MEASURED_BY");
    reveal_strlit("MEASURES");
    reveal_strlit("DERIVES_FROM");
    let x = predicate_type_name(a);
    let y = predicate_type_name(b);
    assert(x.len() == y.len());
    assert(x[0] == y[0]);
    assert(x[2] == y[2]);
}

/// A type is the one that its name names.
pub proof fn law_predicate_types_are_read_back(t: PredicateType)
    ensures
        predicate_type_named(predicate_type_name(t)) == Some(t),
{
    let s = predicate_type_name(t);
    let found = choose|u: PredicateType| #[trigger] predicate_type_name(u) == s;
    assert(predicate_type_name(found) == s);
    lemma_predicate_types_differ(found, t);
}

/// The place of a type among all types.
spec fn predicate_type_rank(t: PredicateType) -> int {
    match t {
        PredicateType::RelatedTo => 0,
        PredicateType::PartOf => 1,
        PredicateType::ComposedOf => 2,
        PredicateType::IsUsedBy => 3,
        PredicateType::Uses => 4,
        PredicateType::DevelopedBy => 5,
        PredicateType::FoundedBy => 6,
        PredicateType::CreatedBy => 7,
        PredicateType::InventedBy => 8,
        PredicateType::PublishedBy => 9,
        PredicateType::OwnedBy => 10,
        PredicateType::EvidencedBy => 11,
        PredicateType::LocatedIn => 12,
        PredicateType::WorksFor => 13,
        PredicateType::HasProperty => 14,
        PredicateType::Succeeds => 15,
        PredicateType::Precedes => 16,
        PredicateType::MeasuredBy => 17,
        PredicateType::Measures => 18,
        PredicateType::DerivesFrom => 19,
    }
}

impl PredicateType {
    /// The name of the type.
    pub fn value(&self) -> (r: &'static str)
        ensures
            r@ == predicate_type_name(*self),
    {
        match self {
            PredicateType::RelatedTo => "RELATED_TO",
            PredicateType::PartOf => "PART_OF",
            PredicateType::ComposedOf => "COMPOSED_OF",
            PredicateType::IsUsedBy => "IS_USED_BY",
            PredicateType::Uses => "USES",
            PredicateType::DevelopedBy => "DEVELOPED_BY",
            PredicateType::FoundedBy => "FOUNDED_BY",
            PredicateType::CreatedBy => "CREATED_BY",
            PredicateType::InventedBy => "INVENTED_BY",
            PredicateType::PublishedBy => "PUBLISHED_BY",
            PredicateType::OwnedBy => "OWNED_BY",
            PredicateType::EvidencedBy => "EVIDENCED_BY",
            PredicateType::LocatedIn => "LOCATED_IN",
            PredicateType::WorksFor => "WORKS_FOR",
            PredicateType::HasProperty => "HAS_PROPERTY",
            PredicateType::Succeeds => "SUCCEEDS",
            PredicateType::Precedes => "PRECEDES",
            PredicateType::MeasuredBy => "MEASURED_BY",
            PredicateType::Measures => "MEASURES",
            PredicateType::DerivesFrom => "DERIVES_FROM",
        }
    }

    /// All types, each once.
    pub fn all() -> (r: Vec<PredicateType>)
        ensures
            forall|t: PredicateType| r@.contains(t),
            r@.no_duplicates(),
    {
        let r = vec![
            PredicateType::RelatedTo,
            PredicateType::PartOf,
            PredicateType::ComposedOf,
            PredicateType::IsUsedBy,
            PredicateType::Uses,
            PredicateType::DevelopedBy,
            PredicateType::FoundedBy,
            PredicateType::CreatedBy,
            PredicateType::InventedBy,
            PredicateType::PublishedBy,
            PredicateType::OwnedBy,
            PredicateType::EvidencedBy,
            PredicateType::LocatedIn,
            PredicateType::WorksFor,
            PredicateType::HasProperty,
            PredicateType::Succeeds,
            PredicateType::Precedes,
            PredicateType::MeasuredBy,
            PredicateType::Measures,
            PredicateType::DerivesFrom,
        ];
        assert forall|t: PredicateType| r@.contains(t) by {
            match t {
                PredicateType::RelatedTo => assert(r@[0] == t),
                PredicateType::PartOf => assert(r@[1] == t),
                PredicateType::ComposedOf => assert(r@[2] == t),
                PredicateType::IsUsedBy => assert(r@[3] == t),
                PredicateType::Uses => assert(r@[4] == t),
                PredicateType::DevelopedBy => assert(r@[5] == t),
                PredicateType::FoundedBy => assert(r@[6] == t),
                PredicateType::CreatedBy => assert(r@[7] == t),
                PredicateType::InventedBy => assert(r@[8] == t),
                PredicateType::PublishedBy => assert(r@[9] == t),
                PredicateType::OwnedBy => assert(r@[10] == t),
                PredicateType::EvidencedBy => assert(r@[11] == t),
                PredicateType::LocatedIn => assert(r@[12] == t),
                PredicateType::WorksFor => assert(r@[13] == t),
                PredicateType::HasProperty => assert(r@[14] == t),
                PredicateType::Succeeds => assert(r@[15] == t),
                PredicateType::Precedes => assert(r@[16] == t),
                PredicateType::MeasuredBy => assert(r@[17] == t),
                PredicateType::Measures => assert(r@[18] == t),
                PredicateType::DerivesFrom => assert(r@[19] == t),
            }
        }
        assert forall|i: int| 0 <= i < 20 implies predicate_type_rank(#[trigger] r@[i]) == i by {
            if i == 0 {
                assert(r@[0] == PredicateType::RelatedTo);
            } else if i == 1 {
                assert(r@[1] == PredicateType::PartOf);
            } else if i == 2 {
                assert(r@[2] == PredicateType::ComposedOf);
            } else if i == 3 {
                assert(r@[3] == PredicateType::IsUsedBy);
            } else if i == 4 {
                assert(r@[4] == PredicateType::Uses);
            } else if i == 5 {
                assert(r@[5] == PredicateType::DevelopedBy);
            } else if i == 6 {
                assert(r@[6] == PredicateType::FoundedBy);
            } else if i == 7 {
                assert(r@[7] == PredicateType::CreatedBy);
            } else if i == 8 {
                assert(r@[8] == PredicateType::InventedBy);
            } else if i == 9 {
                assert(r@[9] == PredicateType::PublishedBy);
            } else if i == 10 {
                assert(r@[10] == PredicateType::OwnedBy);
            } else if i == 11 {
                assert(r@[11] == PredicateType::EvidencedBy);
            } else if i == 12 {
                assert(r@[12] == PredicateType::LocatedIn);
            } else if i == 13 {
                assert(r@[13] == PredicateType::WorksFor);
            } else if i == 14 {
                assert(r@[14] == PredicateType::HasProperty);
            } else if i == 15 {
                assert(r@[15] == PredicateType::Succeeds);
            } else if i == 16 {
                assert(r@[16] == PredicateType::Precedes);
            } else if i == 17 {
                assert(r@[17] == PredicateType::MeasuredBy);
            } else if i == 18 {
                assert(r@[18] == PredicateType::Measures);
            } else if i == 19 {
                assert(r@[19] == PredicateType::DerivesFrom);
            }
        }
        r
    }

    /// The type with the name `s`.
    pub fn parse(s: &str) -> (r: Option<PredicateType>)
        ensures
            r == predicate_type_named(s@),
    {
        let all = PredicateType::all();
        let mut i: usize = 0;
        while i < all.len()
            invariant
                i <= all@.len(),
                forall|t: PredicateType| all@.contains(t),
                forall|k: int| 0 <= k < i ==> predicate_type_name(#[trigger] all@[k]) != s@,
            decreases all.len() - i,
        {
            if text::same(s, all[i].value()) {
                proof {
                    law_predicate_types_are_read_back(all@[i as int]);
                }
                return Some(all[i]);
            }
            i += 1;
        }
        assert forall|t: PredicateType| #[trigger] predicate_type_name(t) != s@ by {
            assert(all@.contains(t));
        }
        None
    }

    /// The type that `s` names loosely.
    pub fn from_loose(s: &str) -> (r: PredicateType)
        ensures
            r == predicate_type_loosely(s@),
    {
        let t = text::trim(s);
        let u = text::to_upper(t.as_str());
        match PredicateType::parse(text::underscore(u.as_str()).as_str()) {
            Some(t) => t,
            None => PredicateType::RelatedTo,
        }
    }
}

} // verus!
