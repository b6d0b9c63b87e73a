use vstd::prelude::*;
use crate::record::{Member, MemberView, RecordView, SourceRecord, members_view};
use vstd::string::StringExecFns;

verus! {

/// The message carried by the failure that the emitted `build` operation
/// returns when the member of the given name was left unset.
pub open spec fn spec_missing_msg(name: Seq<char>) -> Seq<char> {
    name + " was not set"@
}

/// The fixed diagnostic for a declaration that is not a record with named members.
pub open spec fn spec_unsupported_diag() -> Seq<char> {
    "derive(Builder) only supports structs with named fields"@
}

/// The diagnostic for an emitted program whose text could not be tokenized.
pub open spec fn spec_relex_diag() -> Seq<char> {
    "derive(Builder) could not tokenize the emitted builder program"@
}

/// One member of the emitted builder record: the source member's slot, wrapped
/// in the standard optional container written as an absolute path.
pub open spec fn spec_field_decl(m: MemberView) -> Seq<char> {
    m.name + ": std::option::Option<"@ + m.ty + ">"@
}

/// One member initializer of a fresh builder: the slot set to the absent variant.
pub open spec fn spec_field_default(m: MemberView) -> Seq<char> {
    m.name + ": std::option::Option::None"@
}

/// One emitted setter: named after the member, it stores the given value in the
/// member's slot and returns the same exclusive borrow for chaining.
pub open spec fn spec_setter(m: MemberView) -> Seq<char> {
    "pub fn "@ + m.name + "(&mut self, value: "@ + m.ty + ") -> &mut Self { self."@ + m.name
        + " = std::option::Option::Some(value); self } "@
}

/// One emitted presence check inside `build`: an absent slot short-circuits
/// with the failure message for that member.
pub open spec fn spec_presence_check(m: MemberView) -> Seq<char> {
    "if self."@ + m.name + ".is_none() { return std::result::Result::Err(\""@ + m.name
        + " was not set\".to_owned().into()); } "@
}

/// One member initializer of the built record: the value cloned out of the slot.
pub open spec fn spec_build_field(m: MemberView) -> Seq<char> {
    m.name + ": self."@ + m.name + ".clone().unwrap()"@
}

/// The given parts joined with the given separator between consecutive parts.
pub open spec fn spec_join(parts: Seq<Seq<char>>, sep: Seq<char>) -> Seq<char>
    decreases parts.len(),
{
    if parts.len() == 0 {
        Seq::empty()
    } else if parts.len() == 1 {
        parts[0]
    } else {
        spec_join(parts.drop_last(), sep) + sep + parts.last()
    }
}

pub open spec fn spec_decl_parts(ms: Seq<MemberView>) -> Seq<Seq<char>> {
    ms.map_values(|m: MemberView| spec_field_decl(m))
}

pub open spec fn spec_default_parts(ms: Seq<MemberView>) -> Seq<Seq<char>> {
    ms.map_values(|m: MemberView| spec_field_default(m))
}

pub open spec fn spec_setter_parts(ms: Seq<MemberView>) -> Seq<Seq<char>> {
    ms.map_values(|m: MemberView| spec_setter(m))
}

pub open spec fn spec_check_parts(ms: Seq<MemberView>) -> Seq<Seq<char>> {
    ms.map_values(|m: MemberView| spec_presence_check(m))
}

pub open spec fn spec_build_field_parts(ms: Seq<MemberView>) -> Seq<Seq<char>> {
    ms.map_values(|m: MemberView| spec_build_field(m))
}

/// The whole emitted program for one record: the builder record declaration,
/// the builder's inherent operations (one setter per member, then `build`),
/// and the source record's inherent `builder()` factory, in that order.
pub open spec fn spec_expand(r: RecordView) -> Seq<char> {
    "pub struct "@ + r.name + "Builder { "@
        + spec_join(spec_decl_parts(r.members), ", "@)
        + " } impl "@ + r.name + "Builder { "@
        + spec_join(spec_setter_parts(r.members), Seq::empty())
        + "pub fn build(&mut self) -> std::result::Result<"@ + r.name
        + ", std::boxed::Box<dyn std::error::Error>> { "@
        + spec_join(spec_check_parts(r.members), Seq::empty())
        + "std::result::Result::Ok("@ + r.name + " { "@
        + spec_join(spec_build_field_parts(r.members), ", "@)
        + " }) } } impl "@ + r.name + " { pub fn builder() -> "@ + r.name + "Builder { "@
        + r.name + "Builder { "@
        + spec_join(spec_default_parts(r.members), ", "@)
        + " } } }"@
}

/// The builder record mirrors the source record: one member per source
/// member, in the same order, each declared under the source member's name.
pub proof fn lemma_builder_members_mirror(ms: Seq<MemberView>)
    ensures
        spec_decl_parts(ms).len() == ms.len(),
        forall|i: int|
            0 <= i < ms.len() ==> (#[trigger] spec_decl_parts(ms)[i]).subrange(
                0,
                ms[i].name.len() as int,
            ) == ms[i].name,
{
    assert forall|i: int| 0 <= i < ms.len() implies (#[trigger] spec_decl_parts(ms)[i]).subrange(
        0,
        ms[i].name.len() as int,
    ) == ms[i].name by {
        assert(spec_field_decl(ms[i]).subrange(0, ms[i].name.len() as int) =~= ms[i].name);
    }
}

/// The failure literal inside a member's emitted presence check is exactly the
/// missing-member message for that member.
pub proof fn lemma_check_carries_message(m: MemberView)
    ensures
        exists|before: Seq<char>, after: Seq<char>|
            spec_presence_check(m) == before + #[trigger] spec_missing_msg(m.name) + after,
{
    let before = "if self."@ + m.name + ".is_none() { return std::result::Result::Err(\""@;
    let after = "\".to_owned().into()); } "@;
    reveal_strlit(" was not set");
    reveal_strlit("\".to_owned().into()); } ");
    reveal_strlit(" was not set\".to_owned().into()); } ");
    assert(" was not set\".to_owned().into()); } "@ =~= " was not set"@
        + "\".to_owned().into()); } "@);
    assert(spec_presence_check(m) =~= before + spec_missing_msg(m.name) + after);
}

/// The views of a sequence of strings, in the same order.
pub open spec fn views_of(parts: Seq<String>) -> Seq<Seq<char>> {
    parts.map_values(|s: String| s@)
}

/// The message `"<name> was not set"`, exactly as the emitted `build` reports it.
pub fn missing_message(name: &str) -> (r: String)
    ensures
        r@ == spec_missing_msg(name@),
{
    let mut r = name.to_owned();
    r.append(" was not set");
    r
}

/// The fixed diagnostic raised on an unsupported declaration shape.
pub fn unsupported_diagnostic() -> (r: String)
    ensures
        r@ == spec_unsupported_diag(),
{
    "derive(Builder) only supports structs with named fields".to_owned()
}

/// The diagnostic raised when the emitted program's text fails to tokenize.
pub fn relex_diagnostic() -> (r: String)
    ensures
        r@ == spec_relex_diag(),
{
    "derive(Builder) could not tokenize the emitted builder program".to_owned()
}

pub fn field_decl(m: &Member) -> (r: String)
    ensures
        r@ == spec_field_decl(m@),
{
    let mut r = m.name.clone();
    r.append(": std::option::Option<");
    r.append(m.ty.as_str());
    r.append(">");
    r
}

pub fn field_default(m: &Member) -> (r: String)
    ensures
        r@ == spec_field_default(m@),
{
    let mut r = m.name.clone();
    r.append(": std::option::Option::None");
    r
}

pub fn setter_method(m: &Member) -> (r: String)
    ensures
        r@ == spec_setter(m@),
{
    let mut r = "pub fn ".to_owned();
    r.append(m.name.as_str());
    r.append("(&mut self, value: ");
    r.append(m.ty.as_str());
    r.append(") -> &mut Self { self.");
    r.append(m.name.as_str());
    r.append(" = std::option::Option::Some(value); self } ");
    r
}

pub fn presence_check(m: &Member) -> (r: String)
    ensures
        r@ == spec_presence_check(m@),
{
    let mut r = "if self.".to_owned();
    r.append(m.name.as_str());
    r.append(".is_none() { return std::result::Result::Err(\"");
    r.append(m.name.as_str());
    r.append(" was not set\".to_owned().into()); } ");
    r
}

pub fn build_field(m: &Member) -> (r: String)
    ensures
        r@ == spec_build_field(m@),
{
    let mut r = m.name.clone();
    r.append(": self.");
    r.append(m.name.as_str());
    r.append(".clone().unwrap()");
    r
}

/// How one more part extends a join over a prefix of the parts.
proof fn lemma_join_step(ps: Seq<Seq<char>>, sep: Seq<char>, i: int)
    requires
        0 <= i < ps.len(),
    ensures
        spec_join(ps.subrange(0, i + 1), sep) == if i == 0 {
            ps[0]
        } else {
            spec_join(ps.subrange(0, i), sep) + sep + ps[i]
        },
{
    let s1 = ps.subrange(0, i + 1);
    if i == 0 {
        assert(s1.len() == 1);
        assert(s1[0] == ps[0]);
    } else {
        assert(s1.drop_last() =~= ps.subrange(0, i));
        assert(s1.last() == ps[i]);
    }
}

/// The given parts, joined in order with the separator between them.
pub fn join_parts(parts: &Vec<String>, sep: &str) -> (r: String)
    ensures
        r@ == spec_join(views_of(parts@), sep@),
{
    let ghost ps = views_of(parts@);
    let mut r = String::new();
    let mut i: usize = 0;
    while i < parts.len()
        invariant
            i <= parts.len(),
            ps == views_of(parts@),
            r@ == spec_join(ps.subrange(0, i as int), sep@),
        decreases parts.len() - i,
    {
        proof {
            lemma_join_step(ps, sep@, i as int);
        }
        if i > 0 {
            r.append(sep);
        } else {
            proof {
                assert(r@ + ps[0] =~= ps[0]);
            }
        }
        r.append(parts[i].as_str());
        i = i + 1;
    }
    proof {
        assert(ps.subrange(0, parts@.len() as int) =~= ps);
    }
    r
}

/// The given parts concatenated in order, with nothing between them.
pub fn concat_parts(parts: &Vec<String>) -> (r: String)
    ensures
        r@ == spec_join(views_of(parts@), Seq::empty()),
{
    let r = join_parts(parts, "");
    proof {
        reveal_strlit("");
        assert(""@ =~= Seq::<char>::empty());
    }
    r
}

pub fn decl_parts(ms: &Vec<Member>) -> (r: Vec<String>)
    ensures
        views_of(r@) == spec_decl_parts(members_view(ms@)),
{
    let mut r: Vec<String> = Vec::new();
    let mut i: usize = 0;
    while i < ms.len()
        invariant
            i <= ms.len(),
            r@.len() == i,
            forall|j: int| 0 <= j < i ==> r@[j]@ == spec_field_decl(ms@[j]@),
        decreases ms.len() - i,
    {
        r.push(field_decl(&ms[i]));
        i = i + 1;
    }
    proof {
        assert(views_of(r@) =~= spec_decl_parts(members_view(ms@)));
    }
    r
}

pub fn default_parts(ms: &Vec<Member>) -> (r: Vec<String>)
    ensures
        views_of(r@) == spec_default_parts(members_view(ms@)),
{
    let mut r: Vec<String> = Vec::new();
    let mut i: usize = 0;
    while i < ms.len()
        invariant
            i <= ms.len(),
            r@.len() == i,
            forall|j: int| 0 <= j < i ==> r@[j]@ == spec_field_default(ms@[j]@),
        decreases ms.len() - i,
    {
        r.push(field_default(&ms[i]));
        i = i + 1;
    }
    proof {
        assert(views_of(r@) =~= spec_default_parts(members_view(ms@)));
    }
    r
}

pub fn setter_parts(ms: &Vec<Member>) -> (r: Vec<String>)
    ensures
        views_of(r@) == spec_setter_parts(members_view(ms@)),
{
    let mut r: Vec<String> = Vec::new();
    let mut i: usize = 0;
    while i < ms.len()
        invariant
            i <= ms.len(),
            r@.len() == i,
            forall|j: int| 0 <= j < i ==> r@[j]@ == spec_setter(ms@[j]@),
        decreases ms.len() - i,
    {
        r.push(setter_method(&ms[i]));
        i = i + 1;
    }
    proof {
        assert(views_of(r@) =~= spec_setter_parts(members_view(ms@)));
    }
    r
}

pub fn check_parts(ms: &Vec<Member>) -> (r: Vec<String>)
    ensures
        views_of(r@) == spec_check_parts(members_view(ms@)),
{
    let mut r: Vec<String> = Vec::new();
    let mut i: usize = 0;
    while i < ms.len()
        invariant
            i <= ms.len(),
            r@.len() == i,
            forall|j: int| 0 <= j < i ==> r@[j]@ == spec_presence_check(ms@[j]@),
        decreases ms.len() - i,
    {
        r.push(presence_check(&ms[i]));
        i = i + 1;
    }
    proof {
        assert(views_of(r@) =~= spec_check_parts(members_view(ms@)));
    }
    r
}

pub fn build_field_parts(ms: &Vec<Member>) -> (r: Vec<String>)
    ensures
        views_of(r@) == spec_build_field_parts(members_view(ms@)),
{
    let mut r: Vec<String> = Vec::new();
    let mut i: usize = 0;
    while i < ms.len()
        invariant
            i <= ms.len(),
            r@.len() == i,
            forall|j: int| 0 <= j < i ==> r@[j]@ == spec_build_field(ms@[j]@),
        decreases ms.len() - i,
    {
        r.push(build_field(&ms[i]));
        i = i + 1;
    }
    proof {
        assert(views_of(r@) =~= spec_build_field_parts(members_view(ms@)));
    }
    r
}

/// The whole emitted program for the given record, exactly as `spec_expand`
/// states it.
pub fn expand_record(rec: &SourceRecord) -> (out: String)
    ensures
        out@ == spec_expand(rec@),
{
    let decls = join_parts(&decl_parts(&rec.members), ", ");
    let setters = concat_parts(&setter_parts(&rec.members));
    let checks = concat_parts(&check_parts(&rec.members));
    let builds = join_parts(&build_field_parts(&rec.members), ", ");
    let defaults = join_parts(&default_parts(&rec.members), ", ");
    let mut out = "pub struct ".to_owned();
    out.append(rec.name.as_str());
    out.append("Builder { ");
    out.append(decls.as_str());
    out.append(" } impl ");
    out.append(rec.name.as_str());
    out.append("Builder { ");
    out.append(setters.as_str());
    out.append("pub fn build(&mut self) -> std::result::Result<");
    out.append(rec.name.as_str());
    out.append(", std::boxed::Box<dyn std::error::Error>> { ");
    out.append(checks.as_str());
    out.append("std::result::Result::Ok(");
    out.append(rec.name.as_str());
    out.append(" { ");
    out.append(builds.as_str());
    out.append(" }) } } impl ");
    out.append(rec.name.as_str());
    out.append(" { pub fn builder() -> ");
    out.append(rec.name.as_str());
    out.append("Builder { ");
    out.append(rec.name.as_str());
    out.append("Builder { ");
    out.append(defaults.as_str());
    out.append(" } } }");
    out
}

} // verus!
