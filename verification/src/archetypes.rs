//! The 22 named archetypes — the typological library.
//!
//! The 8 functional roles (M·P·C·E·S·T·G·Ch) are the operators; the 22
//! named archetypes are the operands, giving concrete expression to the roles
//! within each complex: 7 roles × 3 complexes (Mind, Body, Spirit) = 21, plus
//! the Choice meta-pivot = 22.

use vstd::prelude::*;

verus! {

/// The 3 complexes (Mind, Body, Spirit), and the Choice meta-pivot.
#[derive(Debug, Clone, Copy, PartialEq, Eq, Hash, Structural)]
pub enum Complex {
    Mind,
    Body,
    Spirit,
    /// The Choice meta-pivot — not part of any complex.
    Pivot,
}

/// The 8 functional roles (M·P·C·E·S·T·G·Ch).
#[derive(Debug, Clone, Copy, PartialEq, Eq, Hash, Structural)]
pub enum Role {
    Matrix,
    Potentiator,
    Catalyst,
    Experience,
    Significator,
    Transformation,
    GreatWay,
    Choice,
}

pub open spec fn complex_name(c: Complex) -> Seq<char> {
    match c {
        Complex::Mind => "mind"@,
        Complex::Body => "body"@,
        Complex::Spirit => "spirit"@,
        Complex::Pivot => "pivot"@,
    }
}

pub open spec fn role_symbol(r: Role) -> Seq<char> {
    match r {
        Role::Matrix => "M"@,
        Role::Potentiator => "P"@,
        Role::Catalyst => "C"@,
        Role::Experience => "E"@,
        Role::Significator => "S"@,
        Role::Transformation => "T"@,
        Role::GreatWay => "G"@,
        Role::Choice => "Ch"@,
    }
}

pub open spec fn role_display_name(r: Role) -> Seq<char> {
    match r {
        Role::Matrix => "Matrix"@,
        Role::Potentiator => "Potentiator"@,
        Role::Catalyst => "Catalyst"@,
        Role::Experience => "Experience"@,
        Role::Significator => "Significator"@,
        Role::Transformation => "Transformation"@,
        Role::GreatWay => "Great Way"@,
        Role::Choice => "Choice"@,
    }
}

impl Complex {
    pub fn as_str(&self) -> (s: &'static str)
        ensures
            s@ == complex_name(*self),
    {
        match self {
            Complex::Mind => "mind",
            Complex::Body => "body",
            Complex::Spirit => "spirit",
            Complex::Pivot => "pivot",
        }
    }
}

impl Role {
    pub fn as_str(&self) -> (s: &'static str)
        ensures
            s@ == role_symbol(*self),
    {
        match self {
            Role::Matrix => "M",
            Role::Potentiator => "P",
            Role::Catalyst => "C",
            Role::Experience => "E",
            Role::Significator => "S",
            Role::Transformation => "T",
            Role::GreatWay => "G",
            Role::Choice => "Ch",
        }
    }

    pub fn display_name(&self) -> (s: &'static str)
        ensures
            s@ == role_display_name(*self),
    {
        match self {
            Role::Matrix => "Matrix",
            Role::Potentiator => "Potentiator",
            Role::Catalyst => "Catalyst",
            Role::Experience => "Experience",
            Role::Significator => "Significator",
            Role::Transformation => "Transformation",
            Role::GreatWay => "Great Way",
            Role::Choice => "Choice",
        }
    }
}

/// One of the 22 named archetypes.
#[derive(Debug, Clone, Copy)]
pub struct Archetype {
    /// Number 1-22.
    pub number: u8,
    /// Archetype name (e.g. "Matrix of the Mind").
    pub name: &'static str,
    /// Which complex this archetype belongs to.
    pub complex: Complex,
    /// Which functional role this archetype expresses.
    pub role: Role,
    /// Short description.
    pub description: &'static str,
}

/// An archetype as a mathematical value.
pub struct ArchetypeView {
    pub number: nat,
    pub name: Seq<char>,
    pub complex: Complex,
    pub role: Role,
    pub description: Seq<char>,
}

impl View for Archetype {
    type V = ArchetypeView;

    open spec fn view(&self) -> ArchetypeView {
        ArchetypeView {
            number: self.number as nat,
            name: self.name@,
            complex: self.complex,
            role: self.role,
            description: self.description@,
        }
    }
}

/// The table of the 22 named archetypes, in order.
pub open spec fn archetype_table() -> Seq<ArchetypeView> {
    seq![
        ArchetypeView { number: 1, name: "Matrix of the Mind"@, complex: Complex::Mind, role: Role::Matrix, description: "Current-state mental organizer — conserved cognitive structure, mental models, beliefs"@ },
        ArchetypeView { number: 2, name: "Potentiator of the Mind"@, complex: Complex::Mind, role: Role::Potentiator, description: "Latent mental possibilities — imagination, envisioned futures, cognitive potential"@ },
        ArchetypeView { number: 3, name: "Catalyst of the Mind"@, complex: Complex::Mind, role: Role::Catalyst, description: "Boundary-crossing mental pressure — new ideas, information, intellectual challenges"@ },
        ArchetypeView { number: 4, name: "Experience of the Mind"@, complex: Complex::Mind, role: Role::Experience, description: "Processed mental input — learning, understanding, cognitive adaptation"@ },
        ArchetypeView { number: 5, name: "Significator of the Mind"@, complex: Complex::Mind, role: Role::Significator, description: "Persistent mental identity — self-concept, intellectual continuity"@ },
        ArchetypeView { number: 6, name: "Transformation of the Mind"@, complex: Complex::Mind, role: Role::Transformation, description: "Mental restructuring event — paradigm shift, cognitive breakthrough"@ },
        ArchetypeView { number: 7, name: "Great Way of the Mind"@, complex: Complex::Mind, role: Role::GreatWay, description: "Mental operating environment — intellectual community, knowledge domain"@ },
        ArchetypeView { number: 8, name: "Matrix of the Body"@, complex: Complex::Body, role: Role::Matrix, description: "Current-state physical organizer — body structure, physical habits, motor patterns"@ },
        ArchetypeView { number: 9, name: "Potentiator of the Body"@, complex: Complex::Body, role: Role::Potentiator, description: "Latent physical possibilities — physical potential, unused capabilities"@ },
        ArchetypeView { number: 10, name: "Catalyst of the Body"@, complex: Complex::Body, role: Role::Catalyst, description: "Boundary-crossing physical pressure — physical stimuli, environmental demands"@ },
        ArchetypeView { number: 11, name: "Experience of the Body"@, complex: Complex::Body, role: Role::Experience, description: "Processed physical input — physical learning, muscle memory, adaptation"@ },
        ArchetypeView { number: 12, name: "Significator of the Body"@, complex: Complex::Body, role: Role::Significator, description: "Persistent physical identity — body image, physical continuity"@ },
        ArchetypeView { number: 13, name: "Transformation of the Body"@, complex: Complex::Body, role: Role::Transformation, description: "Physical restructuring event — physical breakthrough, body transformation"@ },
        ArchetypeView { number: 14, name: "Great Way of the Body"@, complex: Complex::Body, role: Role::GreatWay, description: "Physical operating environment — physical environment, material context"@ },
        ArchetypeView { number: 15, name: "Matrix of the Spirit"@, complex: Complex::Spirit, role: Role::Matrix, description: "Current-state spiritual organizer — spiritual structure, meaning framework"@ },
        ArchetypeView { number: 16, name: "Potentiator of the Spirit"@, complex: Complex::Spirit, role: Role::Potentiator, description: "Latent spiritual possibilities — spiritual potential, unrealized purpose"@ },
        ArchetypeView { number: 17, name: "Catalyst of the Spirit"@, complex: Complex::Spirit, role: Role::Catalyst, description: "Boundary-crossing spiritual pressure — spiritual challenges, calling, inspiration"@ },
        ArchetypeView { number: 18, name: "Experience of the Spirit"@, complex: Complex::Spirit, role: Role::Experience, description: "Processed spiritual input — spiritual growth, wisdom, integration"@ },
        ArchetypeView { number: 19, name: "Significator of the Spirit"@, complex: Complex::Spirit, role: Role::Significator, description: "Persistent spiritual identity — soul, spiritual continuity, essential self"@ },
        ArchetypeView { number: 20, name: "Transformation of the Spirit"@, complex: Complex::Spirit, role: Role::Transformation, description: "Spiritual restructuring event — spiritual awakening, transformation"@ },
        ArchetypeView { number: 21, name: "Great Way of the Spirit"@, complex: Complex::Spirit, role: Role::GreatWay, description: "Spiritual operating environment — spiritual community, evolutionary context"@ },
        ArchetypeView { number: 22, name: "Choice"@, complex: Complex::Pivot, role: Role::Choice, description: "The meta-pivot — directional commitment that closes the greater cycle. Uniquely valence-free; re-opens sinkholes and confirms graduations."@ }
    ]
}

pub open spec fn views_of(v: Seq<Archetype>) -> Seq<ArchetypeView> {
    v.map_values(|a: Archetype| a@)
}

/// Get all 22 named archetypes.
pub fn all_archetypes() -> (v: Vec<Archetype>)
    ensures
        views_of(v@) == archetype_table(),
{
    let mut v: Vec<Archetype> = Vec::new();
    v.push(Archetype { number: 1, name: "Matrix of the Mind", complex: Complex::Mind, role: Role::Matrix, description: "Current-state mental organizer — conserved cognitive structure, mental models, beliefs" });
    v.push(Archetype { number: 2, name: "Potentiator of the Mind", complex: Complex::Mind, role: Role::Potentiator, description: "Latent mental possibilities — imagination, envisioned futures, cognitive potential" });
    v.push(Archetype { number: 3, name: "Catalyst of the Mind", complex: Complex::Mind, role: Role::Catalyst, description: "Boundary-crossing mental pressure — new ideas, information, intellectual challenges" });
    v.push(Archetype { number: 4, name: "Experience of the Mind", complex: Complex::Mind, role: Role::Experience, description: "Processed mental input — learning, understanding, cognitive adaptation" });
    v.push(Archetype { number: 5, name: "Significator of the Mind", complex: Complex::Mind, role: Role::Significator, description: "Persistent mental identity — self-concept, intellectual continuity" });
    v.push(Archetype { number: 6, name: "Transformation of the Mind", complex: Complex::Mind, role: Role::Transformation, description: "Mental restructuring event — paradigm shift, cognitive breakthrough" });
    v.push(Archetype { number: 7, name: "Great Way of the Mind", complex: Complex::Mind, role: Role::GreatWay, description: "Mental operating environment — intellectual community, knowledge domain" });
    v.push(Archetype { number: 8, name: "Matrix of the Body", complex: Complex::Body, role: Role::Matrix, description: "Current-state physical organizer — body structure, physical habits, motor patterns" });
    v.push(Archetype { number: 9, name: "Potentiator of the Body", complex: Complex::Body, role: Role::Potentiator, description: "Latent physical possibilities — physical potential, unused capabilities" });
    v.push(Archetype { number: 10, name: "Catalyst of the Body", complex: Complex::Body, role: Role::Catalyst, description: "Boundary-crossing physical pressure — physical stimuli, environmental demands" });
    v.push(Archetype { number: 11, name: "Experience of the Body", complex: Complex::Body, role: Role::Experience, description: "Processed physical input — physical learning, muscle memory, adaptation" });
    v.push(Archetype { number: 12, name: "Significator of the Body", complex: Complex::Body, role: Role::Significator, description: "Persistent physical identity — body image, physical continuity" });
    v.push(Archetype { number: 13, name: "Transformation of the Body", complex: Complex::Body, role: Role::Transformation, description: "Physical restructuring event — physical breakthrough, body transformation" });
    v.push(Archetype { number: 14, name: "Great Way of the Body", complex: Complex::Body, role: Role::GreatWay, description: "Physical operating environment — physical environment, material context" });
    v.push(Archetype { number: 15, name: "Matrix of the Spirit", complex: Complex::Spirit, role: Role::Matrix, description: "Current-state spiritual organizer — spiritual structure, meaning framework" });
    v.push(Archetype { number: 16, name: "Potentiator of the Spirit", complex: Complex::Spirit, role: Role::Potentiator, description: "Latent spiritual possibilities — spiritual potential, unrealized purpose" });
    v.push(Archetype { number: 17, name: "Catalyst of the Spirit", complex: Complex::Spirit, role: Role::Catalyst, description: "Boundary-crossing spiritual pressure — spiritual challenges, calling, inspiration" });
    v.push(Archetype { number: 18, name: "Experience of the Spirit", complex: Complex::Spirit, role: Role::Experience, description: "Processed spiritual input — spiritual growth, wisdom, integration" });
    v.push(Archetype { number: 19, name: "Significator of the Spirit", complex: Complex::Spirit, role: Role::Significator, description: "Persistent spiritual identity — soul, spiritual continuity, essential self" });
    v.push(Archetype { number: 20, name: "Transformation of the Spirit", complex: Complex::Spirit, role: Role::Transformation, description: "Spiritual restructuring event — spiritual awakening, transformation" });
    v.push(Archetype { number: 21, name: "Great Way of the Spirit", complex: Complex::Spirit, role: Role::GreatWay, description: "Spiritual operating environment — spiritual community, evolutionary context" });
    v.push(Archetype { number: 22, name: "Choice", complex: Complex::Pivot, role: Role::Choice, description: "The meta-pivot — directional commitment that closes the greater cycle. Uniquely valence-free; re-opens sinkholes and confirms graduations." });
    assert(views_of(v@) =~= archetype_table());
    v
}


/// Position of a complex in the table's layout.
pub open spec fn complex_index(c: Complex) -> int {
    match c {
        Complex::Mind => 0,
        Complex::Body => 1,
        Complex::Spirit => 2,
        Complex::Pivot => 3,
    }
}

/// Position of a role within a complex's block.
pub open spec fn role_index(r: Role) -> int {
    match r {
        Role::Matrix => 0,
        Role::Potentiator => 1,
        Role::Catalyst => 2,
        Role::Experience => 3,
        Role::Significator => 4,
        Role::Transformation => 5,
        Role::GreatWay => 6,
        Role::Choice => 7,
    }
}

/// Where the archetype numbered `n` stands in the table.
pub open spec fn number_slot(n: nat) -> Option<int> {
    if 1 <= n <= 22 { Some(n - 1) } else { None }
}

/// Where the archetype of complex `c` and role `r` stands in the table:
/// the Choice role exists only in the pivot, and the pivot holds only Choice.
pub open spec fn complex_role_slot(c: Complex, r: Role) -> Option<int> {
    if c == Complex::Pivot || r == Role::Choice {
        if c == Complex::Pivot && r == Role::Choice { Some(21) } else { None }
    } else {
        Some(complex_index(c) * 7 + role_index(r))
    }
}

pub open spec fn in_complex(c: Complex) -> spec_fn(ArchetypeView) -> bool {
    |a: ArchetypeView| a.complex == c
}

pub open spec fn with_role(r: Role) -> spec_fn(ArchetypeView) -> bool {
    |a: ArchetypeView| a.role == r
}

/// The layout of the table: archetype `i + 1` stands at position `i`; the
/// first 21 form three blocks of seven (Mind, Body, Spirit), each running
/// through the seven roles in order; the last is the Choice meta-pivot.
pub proof fn lemma_archetype_layout()
    ensures
        archetype_table().len() == 22,
        forall|i: int| 0 <= i < 22 ==> #[trigger] archetype_table()[i].number == i + 1,
        forall|i: int| 0 <= i < 21 ==> complex_index(#[trigger] archetype_table()[i].complex) == i / 7
            && role_index(archetype_table()[i].role) == i % 7,
        archetype_table()[21].complex == Complex::Pivot,
        archetype_table()[21].role == Role::Choice,
{
    let t = archetype_table();
    assert(t[0].number == 1);
    assert(t[1].number == 2);
    assert(t[2].number == 3);
    assert(t[3].number == 4);
    assert(t[4].number == 5);
    assert(t[5].number == 6);
    assert(t[6].number == 7);
    assert(t[7].number == 8);
    assert(t[8].number == 9);
    assert(t[9].number == 10);
    assert(t[10].number == 11);
    assert(t[11].number == 12);
    assert(t[12].number == 13);
    assert(t[13].number == 14);
    assert(t[14].number == 15);
    assert(t[15].number == 16);
    assert(t[16].number == 17);
    assert(t[17].number == 18);
    assert(t[18].number == 19);
    assert(t[19].number == 20);
    assert(t[20].number == 21);
    assert(t[21].number == 22);
    assert(complex_index(t[0].complex) == 0 && role_index(t[0].role) == 0);
    assert(complex_index(t[1].complex) == 0 && role_index(t[1].role) == 1);
    assert(complex_index(t[2].complex) == 0 && role_index(t[2].role) == 2);
    assert(complex_index(t[3].complex) == 0 && role_index(t[3].role) == 3);
    assert(complex_index(t[4].complex) == 0 && role_index(t[4].role) == 4);
    assert(complex_index(t[5].complex) == 0 && role_index(t[5].role) == 5);
    assert(complex_index(t[6].complex) == 0 && role_index(t[6].role) == 6);
    assert(complex_index(t[7].complex) == 1 && role_index(t[7].role) == 0);
    assert(complex_index(t[8].complex) == 1 && role_index(t[8].role) == 1);
    assert(complex_index(t[9].complex) == 1 && role_index(t[9].role) == 2);
    assert(complex_index(t[10].complex) == 1 && role_index(t[10].role) == 3);
    assert(complex_index(t[11].complex) == 1 && role_index(t[11].role) == 4);
    assert(complex_index(t[12].complex) == 1 && role_index(t[12].role) == 5);
    assert(complex_index(t[13].complex) == 1 && role_index(t[13].role) == 6);
    assert(complex_index(t[14].complex) == 2 && role_index(t[14].role) == 0);
    assert(complex_index(t[15].complex) == 2 && role_index(t[15].role) == 1);
    assert(complex_index(t[16].complex) == 2 && role_index(t[16].role) == 2);
    assert(complex_index(t[17].complex) == 2 && role_index(t[17].role) == 3);
    assert(complex_index(t[18].complex) == 2 && role_index(t[18].role) == 4);
    assert(complex_index(t[19].complex) == 2 && role_index(t[19].role) == 5);
    assert(complex_index(t[20].complex) == 2 && role_index(t[20].role) == 6);
    assert forall|i: int| 0 <= i < 22 implies #[trigger] archetype_table()[i].number == i + 1 by {
        assert(0 <= i < 22);
    }
    assert forall|i: int| 0 <= i < 21 implies complex_index(#[trigger] archetype_table()[i].complex) == i / 7
        && role_index(archetype_table()[i].role) == i % 7 by {
        assert(0 <= i < 21);
    }
}

/// Every archetype is found again by its own number and by its own complex
/// and role: both lookups are one-to-one.
pub proof fn lemma_lookups_invert(k: int)
    requires
        0 <= k < 22,
    ensures
        number_slot(archetype_table()[k].number) == Some(k),
        complex_role_slot(archetype_table()[k].complex, archetype_table()[k].role) == Some(k),
{
    lemma_archetype_layout();
    let a = archetype_table()[k];
    if k < 21 {
        assert(complex_index(a.complex) == k / 7 && role_index(a.role) == k % 7);
        assert(a.complex != Complex::Pivot);
        assert(a.role != Role::Choice);
    }
}

/// The slot a lookup by complex and role names holds that complex and role.
pub proof fn lemma_complex_role_slot_sound(c: Complex, r: Role)
    ensures
        complex_role_slot(c, r) matches Some(k) ==> 0 <= k < 22
            && archetype_table()[k].complex == c && archetype_table()[k].role == r,
{
    lemma_archetype_layout();
    if let Some(k) = complex_role_slot(c, r) {
        if k < 21 {
            let a = archetype_table()[k];
            assert(complex_index(a.complex) == complex_index(c));
            assert(role_index(a.role) == role_index(r));
        }
    }
}

/// Mind, Body and Spirit each hold seven archetypes; the pivot holds one.
pub proof fn lemma_complex_counts()
    ensures
        archetype_table().filter(in_complex(Complex::Mind)).len() == 7,
        archetype_table().filter(in_complex(Complex::Body)).len() == 7,
        archetype_table().filter(in_complex(Complex::Spirit)).len() == 7,
        archetype_table().filter(in_complex(Complex::Pivot)).len() == 1,
{
    reveal_with_fuel(Seq::filter, 23);
}

/// Each of the seven non-Choice roles appears three times (Mind, Body,
/// Spirit); Choice appears once.
pub proof fn lemma_role_counts()
    ensures
        archetype_table().filter(with_role(Role::Matrix)).len() == 3,
        archetype_table().filter(with_role(Role::Potentiator)).len() == 3,
        archetype_table().filter(with_role(Role::Catalyst)).len() == 3,
        archetype_table().filter(with_role(Role::Experience)).len() == 3,
        archetype_table().filter(with_role(Role::Significator)).len() == 3,
        archetype_table().filter(with_role(Role::Transformation)).len() == 3,
        archetype_table().filter(with_role(Role::GreatWay)).len() == 3,
        archetype_table().filter(with_role(Role::Choice)).len() == 1,
{
    reveal_with_fuel(Seq::filter, 23);
}

/// The pivot holds one archetype only, the Choice.
pub proof fn lemma_pivot_is_choice()
    ensures
        archetype_table().filter(in_complex(Complex::Pivot)) == seq![archetype_table()[21]],
        archetype_table()[21].name == "Choice"@,
        archetype_table()[21].role == Role::Choice,
{
    reveal_with_fuel(Seq::filter, 23);
    assert(archetype_table().filter(in_complex(Complex::Pivot)) =~= seq![archetype_table()[21]]);
}

/// A role other than Choice is held by three archetypes, those of the Mind,
/// the Body and the Spirit, in that order.
pub proof fn lemma_role_order(r: Role)
    requires
        r != Role::Choice,
    ensures
        archetype_table().filter(with_role(r)) == seq![
            archetype_table()[role_index(r)],
            archetype_table()[7 + role_index(r)],
            archetype_table()[14 + role_index(r)],
        ],
        archetype_table()[role_index(r)].complex == Complex::Mind,
        archetype_table()[7 + role_index(r)].complex == Complex::Body,
        archetype_table()[14 + role_index(r)].complex == Complex::Spirit,
{
    reveal_with_fuel(Seq::filter, 23);
    assert(archetype_table().filter(with_role(r)) =~= seq![
        archetype_table()[role_index(r)],
        archetype_table()[7 + role_index(r)],
        archetype_table()[14 + role_index(r)],
    ]);
}

/// Get an archetype by number (1-22).
pub fn archetype_by_number(number: u8) -> (r: Option<Archetype>)
    ensures
        match number_slot(number as nat) {
            Some(k) => r matches Some(a) && a@ == archetype_table()[k],
            None => r is None,
        },
{
    proof { lemma_archetype_layout(); }
    let v = all_archetypes();
    assert(views_of(v@).len() == v@.len());
    let mut i: usize = 0;
    while i < v.len()
        invariant
            views_of(v@) == archetype_table(),
            v.len() == 22,
            i <= v.len(),
            forall|j: int| 0 <= j < i ==> archetype_table()[j].number != number,
        decreases v.len() - i,
    {
        assert(views_of(v@)[i as int] == v@[i as int]@);
        if v[i].number == number {
            return Some(v[i]);
        }
        i = i + 1;
    }
    proof {
        if 1 <= number <= 22 {
            assert(archetype_table()[number - 1].number == number);
        }
    }
    None
}

/// Get an archetype by complex + role.
pub fn archetype_by_complex_role(complex: &Complex, role: &Role) -> (r: Option<Archetype>)
    ensures
        match complex_role_slot(*complex, *role) {
            Some(k) => r matches Some(a) && a@ == archetype_table()[k],
            None => r is None,
        },
{
    proof {
        lemma_archetype_layout();
        lemma_complex_role_slot_sound(*complex, *role);
    }
    let v = all_archetypes();
    assert(views_of(v@).len() == v@.len());
    let mut i: usize = 0;
    while i < v.len()
        invariant
            views_of(v@) == archetype_table(),
            v.len() == 22,
            i <= v.len(),
            forall|j: int| 0 <= j < i ==> !(archetype_table()[j].complex == *complex
                && archetype_table()[j].role == *role),
        decreases v.len() - i,
    {
        assert(views_of(v@)[i as int] == v@[i as int]@);
        if v[i].complex == *complex && v[i].role == *role {
            proof { lemma_lookups_invert(i as int); }
            return Some(v[i]);
        }
        i = i + 1;
    }
    None
}

/// Get archetypes by complex, in table order.
pub fn archetypes_by_complex(complex: &Complex) -> (r: Vec<Archetype>)
    ensures
        views_of(r@) == archetype_table().filter(in_complex(*complex)),
{
    let v = all_archetypes();
    let mut r: Vec<Archetype> = Vec::new();
    let ghost pred = in_complex(*complex);
    let mut i: usize = 0;
    while i < v.len()
        invariant
            views_of(v@) == archetype_table(),
            i <= v.len(),
            pred == in_complex(*complex),
            views_of(r@) == views_of(v@).take(i as int).filter(pred),
        decreases v.len() - i,
    {
        reveal_with_fuel(Seq::filter, 1);
        assert(views_of(v@).take(i + 1).drop_last() =~= views_of(v@).take(i as int));
        assert(views_of(v@)[i as int] == v@[i as int]@);
        if v[i].complex == *complex {
            r.push(v[i]);
        }
        i = i + 1;
        assert(views_of(r@) =~= views_of(v@).take(i as int).filter(pred));
    }
    assert(views_of(v@).take(v.len() as int) =~= views_of(v@));
    r
}

/// Get archetypes by role, in table order.
pub fn archetypes_by_role(role: &Role) -> (r: Vec<Archetype>)
    ensures
        views_of(r@) == archetype_table().filter(with_role(*role)),
{
    let v = all_archetypes();
    let mut r: Vec<Archetype> = Vec::new();
    let ghost pred = with_role(*role);
    let mut i: usize = 0;
    while i < v.len()
        invariant
            views_of(v@) == archetype_table(),
            i <= v.len(),
            pred == with_role(*role),
            views_of(r@) == views_of(v@).take(i as int).filter(pred),
        decreases v.len() - i,
    {
        reveal_with_fuel(Seq::filter, 1);
        assert(views_of(v@).take(i + 1).drop_last() =~= views_of(v@).take(i as int));
        assert(views_of(v@)[i as int] == v@[i as int]@);
        if v[i].role == *role {
            r.push(v[i]);
        }
        i = i + 1;
        assert(views_of(r@) =~= views_of(v@).take(i as int).filter(pred));
    }
    assert(views_of(v@).take(v.len() as int) =~= views_of(v@));
    r
}

} // verus!
