use vstd::prelude::*;

verus! {

/// One past the largest number that a Pokemon can have.
pub const NUMBER_LIMIT: u16 = 899;

/// A number is valid when it lies strictly between 0 and 899.
pub open spec fn valid_number(n: u16) -> bool {
    0 < n && n < 899
}

/// The reasons for which a primitive value is refused.
#[derive(Debug, Clone, Copy, PartialEq, Eq, Structural)]
pub enum ValueError {
    InvalidNumber,
    InvalidName,
    InvalidTypes,
}

/// A Pokemon's number: always strictly between 0 and 899.
#[derive(Debug, Clone, Copy, PartialEq, Eq, Structural)]
pub struct PokemonNumber(u16);

impl View for PokemonNumber {
    type V = u16;

    closed spec fn view(&self) -> u16 {
        self.0
    }
}

impl PokemonNumber {
    pub closed spec fn wf(&self) -> bool {
        valid_number(self.0)
    }

    /// Validates a raw number.
    pub fn try_from(n: u16) -> (r: Result<PokemonNumber, ValueError>)
        ensures
            r is Ok <==> valid_number(n),
            r matches Ok(p) ==> p@ == n && p.wf(),
            r matches Err(e) ==> e == ValueError::InvalidNumber,
    {
        if n > 0 && n < NUMBER_LIMIT {
            Ok(PokemonNumber(n))
        } else {
            Err(ValueError::InvalidNumber)
        }
    }
}

impl PokemonNumber {
    /// The number as a plain integer.
    pub fn value(&self) -> (r: u16)
        ensures
            r == self@,
    {
        self.0
    }
}

impl From<PokemonNumber> for u16 {
    fn from(n: PokemonNumber) -> (r: u16) {
        n.0
    }
}

impl vstd::std_specs::convert::FromSpecImpl<PokemonNumber> for u16 {
    open spec fn obeys_from_spec() -> bool {
        true
    }

    open spec fn from_spec(n: PokemonNumber) -> u16 {
        n@
    }
}

/// A Pokemon's name: never empty. Whitespace is kept as given.
#[derive(Debug)]
pub struct PokemonName(String);

impl View for PokemonName {
    type V = Seq<char>;

    closed spec fn view(&self) -> Seq<char> {
        self.0@
    }
}

impl PokemonName {
    pub closed spec fn wf(&self) -> bool {
        self.0@.len() > 0
    }

    /// Validates a raw name.
    pub fn try_from(n: String) -> (r: Result<PokemonName, ValueError>)
        ensures
            r is Ok <==> n@.len() > 0,
            r matches Ok(p) ==> p@ == n@ && p.wf(),
            r matches Err(e) ==> e == ValueError::InvalidName,
    {
        if n.as_str().is_empty() {
            Err(ValueError::InvalidName)
        } else {
            Ok(PokemonName(n))
        }
    }

    /// The name as a plain string.
    pub fn into_string(self) -> (r: String)
        ensures
            r@ == self@,
    {
        self.0
    }

    /// A copy of the name.
    pub fn duplicate(&self) -> (r: PokemonName)
        ensures
            r@ == self@,
            r.wf() == self.wf(),
    {
        PokemonName(self.0.clone())
    }
}

/// The elemental categories that a Pokemon can belong to.
#[derive(Debug, Clone, Copy, PartialEq, Eq, Structural)]
pub enum PokemonType {
    Electric,
    Fire,
}

/// The tag that names each category.
pub open spec fn tag_of(t: PokemonType) -> Seq<char> {
    match t {
        PokemonType::Electric => "Electric"@,
        PokemonType::Fire => "Fire"@,
    }
}

/// The category that a tag names, if it names one.
pub open spec fn type_of_tag(s: Seq<char>) -> Option<PokemonType> {
    if s == "Electric"@ {
        Some(PokemonType::Electric)
    } else if s == "Fire"@ {
        Some(PokemonType::Fire)
    } else {
        None
    }
}

/// A list of tags is valid when it is not empty and each tag names a category.
pub open spec fn valid_tags(ts: Seq<Seq<char>>) -> bool {
    ts.len() > 0 && forall|i: int| 0 <= i < ts.len() ==> (#[trigger] type_of_tag(ts[i])) is Some
}

/// The categories that a list of tags names, one for each tag.
pub open spec fn types_of_tags(ts: Seq<Seq<char>>) -> Seq<PokemonType> {
    ts.map_values(|s: Seq<char>| type_of_tag(s)->0)
}

/// The tags of a list of categories, one for each.
pub open spec fn tags_of_types(ts: Seq<PokemonType>) -> Seq<Seq<char>> {
    ts.map_values(|t: PokemonType| tag_of(t))
}

/// The views of a list of strings.
pub open spec fn string_views(v: Seq<String>) -> Seq<Seq<char>> {
    v.map_values(|s: String| s@)
}

impl PokemonType {
    /// Reads one tag. Tags that name no category are refused, not coerced.
    pub fn try_from(t: &String) -> (r: Result<PokemonType, ValueError>)
        ensures
            r is Ok <==> type_of_tag(t@) is Some,
            r matches Ok(pt) ==> type_of_tag(t@) == Some(pt),
            r matches Err(e) ==> e == ValueError::InvalidTypes,
    {
        let electric = String::from_str("Electric");
        let fire = String::from_str("Fire");
        if *t == electric {
            Ok(PokemonType::Electric)
        } else if *t == fire {
            Ok(PokemonType::Fire)
        } else {
            Err(ValueError::InvalidTypes)
        }
    }

    /// The tag that names this category.
    pub fn to_tag(&self) -> (r: String)
        ensures
            r@ == tag_of(*self),
    {
        match self {
            PokemonType::Electric => String::from_str("Electric"),
            PokemonType::Fire => String::from_str("Fire"),
        }
    }
}

/// A Pokemon's categories: never empty, in the order given, repeats kept.
#[derive(Debug)]
pub struct PokemonTypes(Vec<PokemonType>);

impl View for PokemonTypes {
    type V = Seq<PokemonType>;

    closed spec fn view(&self) -> Seq<PokemonType> {
        self.0@
    }
}

impl PokemonTypes {
    pub closed spec fn wf(&self) -> bool {
        self.0@.len() > 0
    }

    /// Validates a raw list of tags. The first tag that names no category
    /// ends the work; no partial result is kept.
    pub fn try_from(ts: Vec<String>) -> (r: Result<PokemonTypes, ValueError>)
        ensures
            r is Ok <==> valid_tags(string_views(ts@)),
            r matches Ok(p) ==> p@ == types_of_tags(string_views(ts@)) && p.wf(),
            r matches Err(e) ==> e == ValueError::InvalidTypes,
    {
        if ts.len() == 0 {
            return Err(ValueError::InvalidTypes);
        }
        let ghost views = string_views(ts@);
        let mut pts: Vec<PokemonType> = Vec::new();
        let mut i: usize = 0;
        while i < ts.len()
            invariant
                i <= ts.len(),
                views == string_views(ts@),
                pts@.len() == i,
                forall|j: int| 0 <= j < i ==> (#[trigger] type_of_tag(views[j])) is Some,
                forall|j: int| 0 <= j < i ==> pts@[j] == (#[trigger] type_of_tag(views[j]))->0,
            decreases ts.len() - i,
        {
            match PokemonType::try_from(&ts[i]) {
                Ok(pt) => pts.push(pt),
                Err(e) => {
                    assert(type_of_tag(views[i as int]) is None);
                    return Err(e);
                },
            }
            i = i + 1;
        }
        assert(pts@ =~= types_of_tags(views));
        Ok(PokemonTypes(pts))
    }

    /// The tags of the categories, in order.
    pub fn into_tags(self) -> (r: Vec<String>)
        ensures
            string_views(r@) == tags_of_types(self@),
    {
        let mut out: Vec<String> = Vec::new();
        let mut i: usize = 0;
        while i < self.0.len()
            invariant
                i <= self.0.len(),
                out@.len() == i,
                forall|j: int| 0 <= j < i ==> (#[trigger] out@[j])@ == tag_of(self.0@[j]),
            decreases self.0.len() - i,
        {
            out.push(self.0[i].to_tag());
            i = i + 1;
        }
        assert(string_views(out@) =~= tags_of_types(self@));
        out
    }

    /// A copy of the categories.
    pub fn duplicate(&self) -> (r: PokemonTypes)
        ensures
            r@ == self@,
            r.wf() == self.wf(),
    {
        let mut out: Vec<PokemonType> = Vec::new();
        let mut i: usize = 0;
        while i < self.0.len()
            invariant
                i <= self.0.len(),
                out@ == self.0@.subrange(0, i as int),
            decreases self.0.len() - i,
        {
            out.push(self.0[i]);
            i = i + 1;
            assert(out@ =~= self.0@.subrange(0, i as int));
        }
        assert(out@ =~= self.0@);
        PokemonTypes(out)
    }
}

/// What a stored record holds: its name and its categories, keyed by number.
pub type RecordView = (Seq<char>, Seq<PokemonType>);

/// One record: a number, a name and categories, each validated.
#[derive(Debug)]
pub struct Pokemon {
    pub number: PokemonNumber,
    pub name: PokemonName,
    pub types: PokemonTypes,
}

impl View for Pokemon {
    type V = (u16, Seq<char>, Seq<PokemonType>);

    open spec fn view(&self) -> (u16, Seq<char>, Seq<PokemonType>) {
        (self.number@, self.name@, self.types@)
    }
}

impl Pokemon {
    pub open spec fn wf(&self) -> bool {
        self.number.wf() && self.name.wf() && self.types.wf()
    }

    /// Builds a record from fields that are already valid.
    pub fn new(number: PokemonNumber, name: PokemonName, types: PokemonTypes) -> (r: Pokemon)
        ensures
            r.number == number,
            r@ == (number@, name@, types@),
            r.wf() == (number.wf() && name.wf() && types.wf()),
    {
        Pokemon { number, name, types }
    }

    /// A copy of the record.
    pub fn duplicate(&self) -> (r: Pokemon)
        ensures
            r@ == self@,
            r.wf() == self.wf(),
    {
        Pokemon { number: self.number, name: self.name.duplicate(), types: self.types.duplicate() }
    }
}

/// Converting a valid number back to its primitive and validating that again
/// succeeds, with the same number.
pub proof fn lemma_number_round_trip(p: PokemonNumber)
    requires
        p.wf(),
    ensures
        valid_number(p@),
{
}

/// Converting a valid name back to its primitive and validating that again
/// succeeds, with the same name.
pub proof fn lemma_name_round_trip(p: PokemonName)
    requires
        p.wf(),
    ensures
        p@.len() > 0,
{
}

/// Reading a valid list of tags and writing the categories back as tags gives
/// the list that was read.
pub proof fn lemma_tags_round_trip(ts: Seq<Seq<char>>)
    requires
        valid_tags(ts),
    ensures
        tags_of_types(types_of_tags(ts)) == ts,
{
    reveal_strlit("Electric");
    reveal_strlit("Fire");
    assert(tags_of_types(types_of_tags(ts)) =~= ts);
}

/// Writing valid categories as tags and reading those back succeeds, and gives
/// the categories that were written.
pub proof fn lemma_types_round_trip(p: PokemonTypes)
    requires
        p.wf(),
    ensures
        valid_tags(tags_of_types(p@)),
        types_of_tags(tags_of_types(p@)) == p@,
{
    reveal_strlit("Electric");
    reveal_strlit("Fire");
    let ts = tags_of_types(p@);
    assert forall|i: int| 0 <= i < ts.len() implies (#[trigger] type_of_tag(ts[i])) is Some by {
        assert(ts[i] == tag_of(p@[i]));
    }
    assert forall|i: int| 0 <= i < ts.len() implies #[trigger] types_of_tags(ts)[i] == p@[i] by {
        assert(ts[i] == tag_of(p@[i]));
    }
    assert(types_of_tags(ts) =~= p@);
}

} // verus!
