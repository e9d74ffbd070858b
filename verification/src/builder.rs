//! From a verification key to the parameter map of its verifier.

use crate::digits::to_decimal;
use crate::domain::{domain_generator, generates, DomainModel, EvaluationDomain};
use crate::error::CodegenError;
use crate::field::{render_scalar_to_hex, Field, FieldElement};
use crate::key::{
    all_encodable, all_scalars, coordinates_of, values_of, KeyModel, VerificationKey,
};
use crate::parameter::{lemma_named_complete, lemma_named_sound, named, Parameter};
use crate::points::{render_g1_affine_to_hex, render_g2_affine_to_hex, G1Coordinates, G1Point};
use vstd::prelude::*;

verus! {

/// A JSON object of serde_json. Its contents are seen through
/// `json_entries` only.
#[verifier::external_type_specification]
#[verifier::external_body]
#[verifier::reject_recursive_types(K)]
#[verifier::reject_recursive_types(V)]
pub struct ExJsonMap<K, V>(serde_json::Map<K, V>);

/// A JSON value of serde_json. Nothing is said of its contents.
#[verifier::external_type_specification]
#[verifier::external_body]
pub struct ExJsonValue(serde_json::Value);

/// A JSON object as serde_json holds it.
type JsonObject = serde_json::Map<String, serde_json::Value>;

/// The parameters of a verifier: a JSON object in which each parameter's
/// name is a key and its text the value. Only this library fills one, text
/// by text, so every value in it is a JSON string.
#[derive(Debug)]
pub struct ParameterMap {
    pub(crate) entries: serde_json::Map<String, serde_json::Value>,
}

impl View for ParameterMap {
    type V = Map<Seq<char>, Seq<char>>;

    /// Under each parameter's name its text.
    closed spec fn view(&self) -> Map<Seq<char>, Seq<char>> {
        json_entries(self.entries)
    }
}

impl ParameterMap {
    /// The JSON object that holds the parameters.
    pub fn as_json(&self) -> (object: &serde_json::Map<String, serde_json::Value>)
        ensures
            json_entries(*object) == self@,
    {
        &self.entries
    }
}

/// The entries of a JSON object whose values are all strings: under each key
/// the text of its value.
pub uninterp spec fn json_entries(map: serde_json::Map<String, serde_json::Value>) -> Map<
    Seq<char>,
    Seq<char>,
>;

/// Calls `Map::new` of serde_json, which makes an object without entries.
#[verifier::external_body]
fn new_parameter_map() -> (fresh: JsonObject)
    ensures
        json_entries(fresh) == (Map::<Seq<char>, Seq<char>>::empty()),
{
    serde_json::Map::new()
}

/// Calls `Map::insert` of serde_json with `text` as a JSON string, made by
/// `to_json` of handlebars. Afterwards `text` stands under `name`, in place
/// of what stood there before, if anything did, and the other entries are
/// as they were.
#[verifier::external_body]
fn insert_text(map: &mut JsonObject, name: String, text: String)
    ensures
        json_entries(*final(map)) == json_entries(*old(map)).insert(name@, text@),
{
    map.insert(name, handlebars::to_json(text));
}

/// The three sequences of points of a key.
#[derive(Clone, Copy)]
enum PointFamily {
    Selector,
    NextStepSelector,
    Permutation,
}

impl PointFamily {
    /// The parameter for a coordinate of the point at `index`.
    spec fn coordinate(self, index: usize, coordinate: usize) -> Parameter {
        match self {
            PointFamily::Selector => Parameter::SelectorCommitment { index, coordinate },
            PointFamily::NextStepSelector => Parameter::NextStepSelectorCommitment {
                index,
                coordinate,
            },
            PointFamily::Permutation => Parameter::PermutationCommitment { index, coordinate },
        }
    }

    /// The family's points in `key`.
    spec fn points(self, key: KeyModel) -> Seq<G1Coordinates> {
        match self {
            PointFamily::Selector => key.selector_commitments,
            PointFamily::NextStepSelector => key.next_step_selector_commitments,
            PointFamily::Permutation => key.permutation_commitments,
        }
    }

    /// The first `count` coordinate parameters of the family, point by
    /// point, `x` before `y`.
    spec fn coordinates(self, count: nat) -> Seq<Parameter> {
        Seq::new(count, |k: int| self.coordinate((k / 2) as usize, (k % 2) as usize))
    }

    fn parameter(self, index: usize, coordinate: usize) -> (p: Parameter)
        ensures
            p == self.coordinate(index, coordinate),
    {
        match self {
            PointFamily::Selector => Parameter::SelectorCommitment { index, coordinate },
            PointFamily::NextStepSelector => Parameter::NextStepSelectorCommitment {
                index,
                coordinate,
            },
            PointFamily::Permutation => Parameter::PermutationCommitment { index, coordinate },
        }
    }
}

/// The parameters of the first `count` scalars.
spec fn residues(count: nat) -> Seq<Parameter> {
    Seq::new(count, |k: int| Parameter::PermutationNonResidue { index: k as usize })
}

/// The parameters that every key gives first.
spec fn head() -> Seq<Parameter> {
    seq![Parameter::DomainSize, Parameter::NumInputs, Parameter::Omega]
}

/// The first `count` components of the second group element.
spec fn components(count: nat) -> Seq<Parameter> {
    Seq::new(count, |k: int| Parameter::G2 { component: k as usize })
}

/// Every parameter that `key` gives, in the order in which they are written.
spec fn schema(key: KeyModel) -> Seq<Parameter> {
    head() + PointFamily::Selector.coordinates(2 * key.selector_commitments.len())
        + PointFamily::NextStepSelector.coordinates(2 * key.next_step_selector_commitments.len())
        + PointFamily::Permutation.coordinates(2 * key.permutation_commitments.len()) + residues(
        key.non_residues.len(),
    ) + components(4)
}

/// `base` after the parameters `ps` were written into it one after the
/// other.
spec fn fill(
    base: Map<Seq<char>, Seq<char>>,
    key: KeyModel,
    domain: DomainModel,
    ps: Seq<Parameter>,
) -> Map<Seq<char>, Seq<char>>
    decreases ps.len(),
{
    if ps.len() == 0 {
        base
    } else {
        fill(base, key, domain, ps.drop_last()).insert(
            ps.last().name(),
            key.value(domain, ps.last()),
        )
    }
}

/// Writing `first` and then `then` is writing the two in one go.
proof fn lemma_fill_append(
    base: Map<Seq<char>, Seq<char>>,
    key: KeyModel,
    domain: DomainModel,
    first: Seq<Parameter>,
    then: Seq<Parameter>,
)
    ensures
        fill(fill(base, key, domain, first), key, domain, then) == fill(
            base,
            key,
            domain,
            first + then,
        ),
    decreases then.len(),
{
    if then.len() == 0 {
        assert(first + then =~= first);
    } else {
        lemma_fill_append(base, key, domain, first, then.drop_last());
        assert((first + then).drop_last() =~= first + then.drop_last());
        assert((first + then).last() == then.last());
    }
}

/// Writing one more parameter.
proof fn lemma_fill_push(
    base: Map<Seq<char>, Seq<char>>,
    key: KeyModel,
    domain: DomainModel,
    ps: Seq<Parameter>,
    p: Parameter,
)
    ensures
        fill(base, key, domain, ps.push(p)) == fill(base, key, domain, ps).insert(
            p.name(),
            key.value(domain, p),
        ),
{
    assert(ps.push(p).drop_last() =~= ps);
}

/// What stands in a map that was filled from nothing: under the name of
/// each parameter written its text, and nothing else.
proof fn lemma_fill_entries(key: KeyModel, domain: DomainModel, ps: Seq<Parameter>)
    requires
        forall|k: int| 0 <= k < ps.len() ==> (#[trigger] ps[k]).well_formed(),
    ensures
        forall|k: int|
            0 <= k < ps.len() ==> fill(Map::empty(), key, domain, ps).contains_key(
                (#[trigger] ps[k]).name(),
            ),
        forall|name: Seq<char>| #[trigger]
            fill(Map::empty(), key, domain, ps).contains_key(name) ==> {
                &&& named(name) is Some
                &&& ps.contains(named(name)->0)
                &&& fill(Map::empty(), key, domain, ps)[name] == key.value(domain, named(name)->0)
            },
    decreases ps.len(),
{
    if ps.len() > 0 {
        let front = ps.drop_last();
        let last = ps.last();
        assert forall|k: int| 0 <= k < front.len() implies (#[trigger] front[k]).well_formed() by {
            assert(front[k] == ps[k]);
        }
        lemma_fill_entries(key, domain, front);
        assert(ps[ps.len() - 1].well_formed());
        lemma_named_complete(last);
        let filled = fill(Map::empty(), key, domain, ps);
        let before = fill(Map::empty(), key, domain, front);
        assert(filled == before.insert(last.name(), key.value(domain, last)));
        assert forall|k: int| 0 <= k < ps.len() implies filled.contains_key(
            (#[trigger] ps[k]).name(),
        ) by {
            if k < ps.len() - 1 {
                assert(front[k] == ps[k]);
            }
        }
        assert forall|name: Seq<char>| #[trigger] filled.contains_key(name) implies {
            &&& named(name) is Some
            &&& ps.contains(named(name)->0)
            &&& filled[name] == key.value(domain, named(name)->0)
        } by {
            if name == last.name() {
                assert(ps[ps.len() - 1] == last);
            } else {
                assert(before.contains_key(name));
                let p = named(name)->0;
                let k = choose|k: int| 0 <= k < front.len() && front[k] == p;
                assert(ps[k] == p);
            }
        }
    }
}

/// The place of a parameter in the schema of a key.
spec fn place(key: KeyModel, p: Parameter) -> int {
    let a = 2 * key.selector_commitments.len();
    let b = 2 * key.next_step_selector_commitments.len();
    let c = 2 * key.permutation_commitments.len();
    let d = key.non_residues.len();
    match p {
        Parameter::DomainSize => 0,
        Parameter::NumInputs => 1,
        Parameter::Omega => 2,
        Parameter::SelectorCommitment { index, coordinate } => 3 + 2 * index + coordinate,
        Parameter::NextStepSelectorCommitment { index, coordinate } => 3 + a + 2 * index
            + coordinate,
        Parameter::PermutationCommitment { index, coordinate } => 3 + a + b + 2 * index
            + coordinate,
        Parameter::PermutationNonResidue { index } => 3 + a + b + c + index,
        Parameter::G2 { component } => 3 + a + b + c + d + component,
    }
}

/// What stands where in the schema of a key: at each place a parameter that
/// the key gives and whose place it is, and each parameter that the key
/// gives at its place.
proof fn lemma_schema_places(key: KeyModel)
    requires
        key.countable(),
    ensures
        schema(key).len() == 7 + 2 * (key.selector_commitments.len()
            + key.next_step_selector_commitments.len() + key.permutation_commitments.len())
            + key.non_residues.len(),
        forall|k: int|
            0 <= k < schema(key).len() ==> {
                let p = #[trigger] schema(key)[k];
                p.well_formed() && key.gives(p) && place(key, p) == k
            },
        forall|p: Parameter|
            p.well_formed() && key.gives(p) ==> 0 <= #[trigger] place(key, p) < schema(key).len()
                && schema(key)[place(key, p)] == p,
{
    let a = PointFamily::Selector.coordinates(2 * key.selector_commitments.len());
    let b = PointFamily::NextStepSelector.coordinates(2 * key.next_step_selector_commitments.len());
    let c = PointFamily::Permutation.coordinates(2 * key.permutation_commitments.len());
    let d = residues(key.non_residues.len());
    let e = components(4);
    let s = schema(key);
    let at_a: int = 3;
    let at_b: int = at_a + a.len();
    let at_c: int = at_b + b.len();
    let at_d: int = at_c + c.len();
    let at_e: int = at_d + d.len();
    assert(s.len() == at_e + 4);
    assert forall|k: int| 0 <= k < s.len() implies s[k] == (if k < at_a {
        head()[k]
    } else if k < at_b {
        a[k - at_a]
    } else if k < at_c {
        b[k - at_b]
    } else if k < at_d {
        c[k - at_c]
    } else if k < at_e {
        d[k - at_d]
    } else {
        e[k - at_e]
    }) by {}
    assert forall|k: int| 0 <= k < s.len() implies {
        let p = #[trigger] s[k];
        p.well_formed() && key.gives(p) && place(key, p) == k
    } by {}
    assert forall|p: Parameter| p.well_formed() && key.gives(p) implies 0 <= #[trigger] place(
        key,
        p,
    ) < s.len() && s[place(key, p)] == p by {}
}

/// The schema of a key holds the parameters that the key gives, each once,
/// and no others.
proof fn lemma_schema(key: KeyModel)
    requires
        key.countable(),
    ensures
        forall|k: int| 0 <= k < schema(key).len() ==> (#[trigger] schema(key)[k]).well_formed(),
        forall|p: Parameter| #[trigger]
            schema(key).contains(p) <==> p.well_formed() && key.gives(p),
        forall|i: int, j: int|
            0 <= i < j < schema(key).len() ==> schema(key)[i] != schema(key)[j],
{
    let s = schema(key);
    lemma_schema_places(key);
    assert forall|p: Parameter| p.well_formed() && key.gives(p) implies #[trigger] s.contains(
        p,
    ) by {
        assert(s[place(key, p)] == p);
    }
    assert forall|i: int, j: int| 0 <= i < j < s.len() implies s[i] != s[j] by {
        assert(place(key, s[i]) == i && place(key, s[j]) == j);
    }
}

/// A map filled from nothing with parameters of which none stands twice has
/// one entry for each.
proof fn lemma_fill_len(key: KeyModel, domain: DomainModel, ps: Seq<Parameter>)
    requires
        forall|k: int| 0 <= k < ps.len() ==> (#[trigger] ps[k]).well_formed(),
        forall|i: int, j: int| 0 <= i < j < ps.len() ==> ps[i] != ps[j],
    ensures
        fill(Map::empty(), key, domain, ps).dom().finite(),
        fill(Map::empty(), key, domain, ps).len() == ps.len(),
    decreases ps.len(),
{
    if ps.len() > 0 {
        let front = ps.drop_last();
        let last = ps.last();
        assert forall|k: int| 0 <= k < front.len() implies (#[trigger] front[k]).well_formed() by {
            assert(front[k] == ps[k]);
        }
        assert forall|i: int, j: int| 0 <= i < j < front.len() implies front[i] != front[j] by {
            assert(front[i] == ps[i] && front[j] == ps[j]);
        }
        lemma_fill_len(key, domain, front);
        lemma_fill_entries(key, domain, front);
        let before = fill(Map::empty(), key, domain, front);
        assert(ps[ps.len() - 1].well_formed());
        lemma_named_complete(last);
        if before.contains_key(last.name()) {
            let k = choose|k: int| 0 <= k < front.len() && front[k] == last;
            assert(ps[k] == ps[ps.len() - 1]);
        }
        assert(fill(Map::empty(), key, domain, ps) == before.insert(
            last.name(),
            key.value(domain, last),
        ));
    }
}

/// The map has one entry for each parameter that the key gives: three
/// counts, two coordinates for each commitment, one text for each
/// non-residue, four components. Nothing is left out and nothing merged,
/// also where two elements of the key are equal.
pub proof fn lemma_parameter_count(key: KeyModel, domain: DomainModel)
    requires
        key.countable(),
    ensures
        key.parameters(domain).dom().finite(),
        key.parameters(domain).len() == 7 + 2 * (key.selector_commitments.len()
            + key.next_step_selector_commitments.len() + key.permutation_commitments.len())
            + key.non_residues.len(),
{
    lemma_schema(key);
    lemma_schema_places(key);
    lemma_fill_len(key, domain, schema(key));
    lemma_schema_parameters(key, domain);
}

/// A map filled with the whole schema of a key holds the parameters of the
/// key.
proof fn lemma_schema_parameters(key: KeyModel, domain: DomainModel)
    requires
        key.countable(),
    ensures
        fill(Map::empty(), key, domain, schema(key)) == key.parameters(domain),
{
    let s = schema(key);
    let filled = fill(Map::empty(), key, domain, s);
    lemma_schema(key);
    lemma_fill_entries(key, domain, s);
    assert forall|name: Seq<char>| filled.contains_key(name) <==> key.parameters(
        domain,
    ).contains_key(name) by {
        lemma_named_sound(name);
        if key.parameters(domain).contains_key(name) {
            let p = named(name)->0;
            assert(s.contains(p));
            let k = choose|k: int| 0 <= k < s.len() && s[k] == p;
            assert(filled.contains_key(s[k].name()));
        }
    }
    assert(filled =~= key.parameters(domain));
}

/// Writes both coordinates of every point of one family into `map`, point
/// by point.
fn insert_points(
    map: &mut JsonObject,
    family: PointFamily,
    points: &Vec<G1Point>,
    Ghost(key): Ghost<KeyModel>,
    Ghost(domain): Ghost<DomainModel>,
) -> (res: Result<(), CodegenError>)
    requires
        family.points(key) == coordinates_of(points@),
    ensures
        match res {
            Ok(_) => all_encodable(family.points(key)) && points@.len() <= usize::MAX
                && json_entries(*final(map)) == fill(
                json_entries(*old(map)),
                key,
                domain,
                family.coordinates(2 * points@.len()),
            ),
            Err(e) => e == CodegenError::InvalidScalar && !all_encodable(family.points(key)),
        },
{
    let ghost base = json_entries(*map);
    let mut i: usize = 0;
    while i < points.len()
        invariant
            i <= points.len(),
            family.points(key) == coordinates_of(points@),
            forall|k: int| 0 <= k < i ==> (#[trigger] family.points(key)[k]).encodable(),
            json_entries(*map) == fill(base, key, domain, family.coordinates(2 * i as nat)),
        decreases points.len() - i,
    {
        let texts = match render_g1_affine_to_hex(&points[i]) {
            Ok(texts) => texts,
            Err(e) => {
                proof {
                    assert(!family.points(key)[i as int].encodable());
                }
                return Err(e);
            },
        };
        let mut j: usize = 0;
        while j < 2
            invariant
                j <= 2,
                i < points.len(),
                family.points(key) == coordinates_of(points@),
                texts@.len() == 2,
                texts@[0]@ == points[i as int]@.hex()[0],
                texts@[1]@ == points[i as int]@.hex()[1],
                json_entries(*map) == fill(
                    base,
                    key,
                    domain,
                    family.coordinates((2 * i + j) as nat),
                ),
            decreases 2 - j,
        {
            let name = family.parameter(i, j).to_name();
            insert_text(map, name, texts[j].clone());
            proof {
                let written = family.coordinates((2 * i + j) as nat);
                let p = family.coordinate(i, j);
                assert(family.coordinates((2 * i + j + 1) as nat) =~= written.push(p));
                lemma_fill_push(base, key, domain, written, p);
                assert(key.value(domain, p) == family.points(key)[i as int].hex()[j as int]);
            }
            j += 1;
        }
        i += 1;
    }
    Ok(())
}

/// Writes every scalar of `scalars` into `map`, one after the other.
fn insert_scalars(
    map: &mut JsonObject,
    scalars: &Vec<FieldElement>,
    Ghost(key): Ghost<KeyModel>,
    Ghost(domain): Ghost<DomainModel>,
) -> (res: Result<(), CodegenError>)
    requires
        key.non_residues == values_of(scalars@),
    ensures
        match res {
            Ok(_) => all_scalars(key.non_residues) && scalars@.len() <= usize::MAX
                && json_entries(*final(map)) == fill(
                json_entries(*old(map)),
                key,
                domain,
                residues(scalars@.len()),
            ),
            Err(e) => e == CodegenError::InvalidScalar && !all_scalars(key.non_residues),
        },
{
    let ghost base = json_entries(*map);
    let mut i: usize = 0;
    while i < scalars.len()
        invariant
            i <= scalars.len(),
            key.non_residues == values_of(scalars@),
            forall|k: int| 0 <= k < i ==> #[trigger] key.non_residues[k] < Field::Scalar.modulus(),
            json_entries(*map) == fill(base, key, domain, residues(i as nat)),
        decreases scalars.len() - i,
    {
        let text = match render_scalar_to_hex(Field::Scalar, &scalars[i]) {
            Ok(text) => text,
            Err(e) => {
                proof {
                    assert(!(key.non_residues[i as int] < Field::Scalar.modulus()));
                }
                return Err(e);
            },
        };
        let p = Parameter::PermutationNonResidue { index: i };
        insert_text(map, p.to_name(), text);
        proof {
            assert(residues((i + 1) as nat) =~= residues(i as nat).push(p));
            lemma_fill_push(base, key, domain, residues(i as nat), p);
        }
        i += 1;
    }
    Ok(())
}

/// Writes the three parameters that every key gives into an empty map.
fn insert_head(
    map: &mut JsonObject,
    vk: &VerificationKey,
    domain: &EvaluationDomain,
) -> (res: Result<(), CodegenError>)
    requires
        json_entries(*old(map)) == (Map::<Seq<char>, Seq<char>>::empty()),
    ensures
        match res {
            Ok(_) => domain@.generator < Field::Scalar.modulus() && json_entries(*final(map))
                == fill(Map::empty(), vk@, domain@, head()),
            Err(e) => e == CodegenError::InvalidScalar && domain@.generator
                >= Field::Scalar.modulus(),
        },
{
    let omega = match render_scalar_to_hex(Field::Scalar, &domain.generator) {
        Ok(text) => text,
        Err(e) => {
            return Err(e);
        },
    };
    insert_text(map, Parameter::DomainSize.to_name(), to_decimal(domain.size as u64));
    insert_text(map, Parameter::NumInputs.to_name(), to_decimal(vk.num_inputs as u64));
    insert_text(map, Parameter::Omega.to_name(), omega);
    proof {
        let none = Seq::<Parameter>::empty();
        lemma_fill_push(Map::empty(), vk@, domain@, none, Parameter::DomainSize);
        lemma_fill_push(
            Map::empty(),
            vk@,
            domain@,
            none.push(Parameter::DomainSize),
            Parameter::NumInputs,
        );
        lemma_fill_push(
            Map::empty(),
            vk@,
            domain@,
            none.push(Parameter::DomainSize).push(Parameter::NumInputs),
            Parameter::Omega,
        );
        assert(head() =~= none.push(Parameter::DomainSize).push(Parameter::NumInputs).push(
            Parameter::Omega,
        ));
    }
    Ok(())
}

/// Writes the four components of the key's second element of the second
/// group into `map`.
fn insert_components(
    map: &mut JsonObject,
    vk: &VerificationKey,
    Ghost(domain): Ghost<DomainModel>,
) -> (res: Result<(), CodegenError>)
    requires
        vk.g2_elements.len() == 2,
    ensures
        match res {
            Ok(_) => vk@.g2_elements[1].encodable() && json_entries(*final(map)) == fill(
                json_entries(*old(map)),
                vk@,
                domain,
                components(4),
            ),
            Err(e) => e == CodegenError::InvalidScalar && !vk@.g2_elements[1].encodable(),
        },
{
    let ghost base = json_entries(*map);
    let texts = match render_g2_affine_to_hex(&vk.g2_elements[1]) {
        Ok(texts) => texts,
        Err(e) => {
            return Err(e);
        },
    };
    let mut k: usize = 0;
    while k < 4
        invariant
            k <= 4,
            vk.g2_elements.len() == 2,
            texts@.len() == 4,
            forall|j: int| 0 <= j < 4 ==> (#[trigger] texts@[j])@ == vk@.g2_elements[1].hex()[j],
            json_entries(*map) == fill(base, vk@, domain, components(k as nat)),
        decreases 4 - k,
    {
        let p = Parameter::G2 { component: k };
        insert_text(map, p.to_name(), texts[k].clone());
        proof {
            assert(components((k + 1) as nat) =~= components(k as nat).push(p));
            lemma_fill_push(base, vk@, domain, components(k as nat), p);
        }
        k += 1;
    }
    Ok(())
}

/// The map in which the head, the three families of points, the scalars and
/// the components of a key were written one after the other.
spec fn staged(key: KeyModel, domain: DomainModel) -> Map<Seq<char>, Seq<char>> {
    let filled = fill(Map::empty(), key, domain, head());
    let filled = fill(
        filled,
        key,
        domain,
        PointFamily::Selector.coordinates(2 * key.selector_commitments.len()),
    );
    let filled = fill(
        filled,
        key,
        domain,
        PointFamily::NextStepSelector.coordinates(2 * key.next_step_selector_commitments.len()),
    );
    let filled = fill(
        filled,
        key,
        domain,
        PointFamily::Permutation.coordinates(2 * key.permutation_commitments.len()),
    );
    let filled = fill(filled, key, domain, residues(key.non_residues.len()));
    fill(filled, key, domain, components(4))
}

/// Written stage by stage, the map holds the parameters of the key.
proof fn lemma_staged(key: KeyModel, domain: DomainModel)
    requires
        key.countable(),
    ensures
        staged(key, domain) == key.parameters(domain),
{
    let a = PointFamily::Selector.coordinates(2 * key.selector_commitments.len());
    let b = PointFamily::NextStepSelector.coordinates(2 * key.next_step_selector_commitments.len());
    let c = PointFamily::Permutation.coordinates(2 * key.permutation_commitments.len());
    let d = residues(key.non_residues.len());
    let e = components(4);
    lemma_fill_append(Map::empty(), key, domain, head(), a);
    lemma_fill_append(Map::empty(), key, domain, head() + a, b);
    lemma_fill_append(Map::empty(), key, domain, head() + a + b, c);
    lemma_fill_append(Map::empty(), key, domain, head() + a + b + c, d);
    lemma_fill_append(Map::empty(), key, domain, head() + a + b + c + d, e);
    lemma_schema_parameters(key, domain);
}

/// The parameter map of the verifier for `vk` over `domain`: the domain's
/// size and the number of inputs in decimal, the generator, every
/// coordinate of every commitment, every non-residue and the four components
/// of the key's second element of the second group, each under its name.
/// There is none for a key that does not hold two elements of the second
/// group, nor where a field element is not below its modulus.
pub fn parameters_for_domain(vk: &VerificationKey, domain: &EvaluationDomain) -> (res: Result<
    ParameterMap,
    CodegenError,
>)
    ensures
        match res {
            Ok(map) => vk@.defect(domain@) is None && map@ == vk@.parameters(domain@),
            Err(e) => vk@.defect(domain@) == Some(e),
        },
{
    if vk.g2_elements.len() != 2 {
        return Err(CodegenError::MalformedKey);
    }
    let ghost key = vk@;
    let ghost dom = domain@;
    let mut map = new_parameter_map();
    match insert_head(&mut map, vk, domain) {
        Ok(_) => {},
        Err(e) => {
            return Err(e);
        },
    }
    match insert_points(
        &mut map,
        PointFamily::Selector,
        &vk.selector_commitments,
        Ghost(key),
        Ghost(dom),
    ) {
        Ok(_) => {},
        Err(e) => {
            return Err(e);
        },
    }
    match insert_points(
        &mut map,
        PointFamily::NextStepSelector,
        &vk.next_step_selector_commitments,
        Ghost(key),
        Ghost(dom),
    ) {
        Ok(_) => {},
        Err(e) => {
            return Err(e);
        },
    }
    match insert_points(
        &mut map,
        PointFamily::Permutation,
        &vk.permutation_commitments,
        Ghost(key),
        Ghost(dom),
    ) {
        Ok(_) => {},
        Err(e) => {
            return Err(e);
        },
    }
    match insert_scalars(&mut map, &vk.non_residues, Ghost(key), Ghost(dom)) {
        Ok(_) => {},
        Err(e) => {
            return Err(e);
        },
    }
    match insert_components(&mut map, vk, Ghost(dom)) {
        Ok(_) => {},
        Err(e) => {
            return Err(e);
        },
    }
    proof {
        assert(json_entries(map) == staged(key, dom));
        lemma_staged(key, dom);
    }
    Ok(ParameterMap { entries: map })
}

/// The parameter map of the verifier for `vk`, over the key's own domain,
/// whose generator generates the subgroup of the domain's size. There is
/// none for a key that does not hold two elements of the second group, whose
/// domain is too large, or of which a field element is not below its
/// modulus.
pub fn verification_key_parameters(vk: &VerificationKey) -> (res: Result<
    ParameterMap,
    CodegenError,
>)
    ensures
        match res {
            Ok(map) => {
                &&& vk@.rejection() is None
                &&& map@ == vk@.parameters(vk@.domain())
                &&& generates(vk@.domain().generator, vk@.domain().size)
            },
            Err(e) => vk@.rejection() == Some(e),
        },
{
    if vk.g2_elements.len() != 2 {
        return Err(CodegenError::MalformedKey);
    }
    let domain = match domain_generator(vk.n) {
        Ok(domain) => domain,
        Err(e) => {
            return Err(e);
        },
    };
    parameters_for_domain(vk, &domain)
}

} // verus!
