//! Type checker for the rule language.
//!
//! Validates field existence and type compatibility in rule conditions,
//! catching errors like `process.cpu > "hello"` early.
use vstd::prelude::*;

use crate::script::ast::{
    cmp_op_text, rules_view, Action, CmpOp, Condition, Expr, Literal, Rule, RuleFile, SpecAction,
    SpecCondition, SpecExpr, SpecLiteral, SpecRule,
};
use crate::script::strings::{copy_string, push_str};

verus! {

/// Types in the rule type system.
#[derive(Debug, Clone, Copy, PartialEq, Eq, Structural)]
pub enum AetherType {
    /// Percentage value, e.g. `90%`.
    Percent,
    /// Duration in seconds, e.g. `30s`, `5m`.
    Duration,
    /// Signed integer.
    Int,
    /// Decimal number with a fraction.
    Float,
    /// String literal.
    Str,
    /// Boolean value.
    Bool,
    /// Process state (running, sleeping, zombie, stopped).
    ProcessState,
    /// Process object (has fields).
    Process,
    /// System object (has fields).
    System,
}

/// The printed name of a type.
pub open spec fn aether_type_name(t: AetherType) -> Seq<char> {
    match t {
        AetherType::Percent => "Percent"@,
        AetherType::Duration => "Duration"@,
        AetherType::Int => "Int"@,
        AetherType::Float => "Float"@,
        AetherType::Str => "Str"@,
        AetherType::Bool => "Bool"@,
        AetherType::ProcessState => "ProcessState"@,
        AetherType::Process => "Process"@,
        AetherType::System => "System"@,
    }
}

/// Types that take part in ordered comparisons.
pub open spec fn spec_is_numeric(t: AetherType) -> bool {
    t is Percent || t is Int || t is Float || t is Duration
}

/// Whether two types may be compared: equal types always; numeric types
/// with each other, except that a duration compares only with a duration.
pub open spec fn spec_compatible(a: AetherType, b: AetherType) -> bool {
    if a == b {
        true
    } else if spec_is_numeric(a) && spec_is_numeric(b) {
        !(a is Duration) && !(b is Duration)
    } else {
        false
    }
}

impl AetherType {
    /// The printed name of the type.
    pub fn name(self) -> (s: &'static str)
        ensures
            s@ == aether_type_name(self),
    {
        match self {
            AetherType::Percent => "Percent",
            AetherType::Duration => "Duration",
            AetherType::Int => "Int",
            AetherType::Float => "Float",
            AetherType::Str => "Str",
            AetherType::Bool => "Bool",
            AetherType::ProcessState => "ProcessState",
            AetherType::Process => "Process",
            AetherType::System => "System",
        }
    }

    /// The printed name of the type, as an owned string.
    pub fn to_string(self) -> (s: String)
        ensures
            s@ == aether_type_name(self),
    {
        self.name().to_owned()
    }

    /// Whether this type is numeric (can take part in ordered comparisons).
    pub fn is_numeric(self) -> (b: bool)
        ensures
            b == spec_is_numeric(self),
    {
        match self {
            AetherType::Percent | AetherType::Int | AetherType::Float | AetherType::Duration => true,
            _ => false,
        }
    }

    /// Whether two types are compatible for comparison.
    pub fn compatible_with(self, other: Self) -> (b: bool)
        ensures
            b == spec_compatible(self, other),
    {
        if self == other {
            return true;
        }
        if self.is_numeric() && other.is_numeric() {
            if self == AetherType::Duration || other == AetherType::Duration {
                return self == AetherType::Duration && other == AetherType::Duration;
            }
            return true;
        }
        false
    }
}

/// Comparability is symmetric.
pub proof fn lemma_compatible_symmetric(a: AetherType, b: AetherType)
    ensures
        spec_compatible(a, b) == spec_compatible(b, a),
{
}

/// Every type is comparable with itself.
pub proof fn lemma_compatible_reflexive(a: AetherType)
    ensures
        spec_compatible(a, a),
{
}

/// A duration is comparable with nothing but a duration.
pub proof fn lemma_duration_only_with_duration(a: AetherType)
    ensures
        spec_compatible(AetherType::Duration, a) <==> a == AetherType::Duration,
{
}

/// Two distinct types are comparable only when both are numeric.
pub proof fn lemma_compatible_distinct_numeric(a: AetherType, b: AetherType)
    requires
        a != b,
        spec_compatible(a, b),
    ensures
        spec_is_numeric(a) && spec_is_numeric(b),
{
}

/// A type error with a human-readable message.
#[derive(Debug, Clone)]
pub struct TypeError {
    pub message: String,
}

impl TypeError {
    /// The printed form of the error: its message.
    pub fn to_string(&self) -> (s: String)
        ensures
            s@ == self.message@,
    {
        copy_string(&self.message)
    }
}

/// The messages of a list of type errors.
pub open spec fn type_errors_view(v: Seq<TypeError>) -> Seq<Seq<char>> {
    v.map_values(|e: TypeError| e.message@)
}

// ── Type environment ───────────────────────────────────────────────

/// Fields of one object: name and type.
pub struct ObjectFields {
    pub name: String,
    pub fields: Vec<(String, AetherType)>,
}

/// View of an object's fields.
pub type SpecObject = (Seq<char>, Seq<(Seq<char>, AetherType)>);

/// Type environment: maps object names to their field types.
pub struct TypeEnv {
    pub objects: Vec<ObjectFields>,
}

/// The view of a list of fields.
pub open spec fn fields_view(v: Seq<(String, AetherType)>) -> Seq<(Seq<char>, AetherType)> {
    v.map_values(|p: (String, AetherType)| (p.0@, p.1))
}

/// The view of a list of objects.
pub open spec fn objects_view(v: Seq<ObjectFields>) -> Seq<SpecObject> {
    v.map_values(|o: ObjectFields| (o.name@, fields_view(o.fields@)))
}

impl View for TypeEnv {
    type V = Seq<SpecObject>;

    open spec fn view(&self) -> Seq<SpecObject> {
        objects_view(self.objects@)
    }
}

/// The built-in objects and their fields.
pub open spec fn builtin_objects() -> Seq<SpecObject> {
    seq![
        ("process"@, seq![
            ("cpu"@, AetherType::Percent),
            ("mem_bytes"@, AetherType::Int),
            ("mem_growth"@, AetherType::Percent),
            ("state"@, AetherType::ProcessState),
            ("name"@, AetherType::Str),
            ("pid"@, AetherType::Int),
            ("parent"@, AetherType::Str),
            ("hp"@, AetherType::Percent),
        ]),
        ("system"@, seq![
            ("load"@, AetherType::Percent),
            ("total_mem"@, AetherType::Int),
            ("process_count"@, AetherType::Int),
        ]),
    ]
}

/// The fields of the first object named `name` at or after index `i`.
pub open spec fn find_object(objs: Seq<SpecObject>, name: Seq<char>, i: int) -> Option<Seq<(Seq<char>, AetherType)>>
    decreases objs.len() - i,
{
    if i < 0 || i >= objs.len() {
        None
    } else if objs[i].0 == name {
        Some(objs[i].1)
    } else {
        find_object(objs, name, i + 1)
    }
}

/// The type of the first field named `name` at or after index `i`.
pub open spec fn find_field(fields: Seq<(Seq<char>, AetherType)>, name: Seq<char>, i: int) -> Option<AetherType>
    decreases fields.len() - i,
{
    if i < 0 || i >= fields.len() {
        None
    } else if fields[i].0 == name {
        Some(fields[i].1)
    } else {
        find_field(fields, name, i + 1)
    }
}

/// The type of `object.field` in `env`, or the error message.
pub open spec fn spec_resolve_field(env: Seq<SpecObject>, object: Seq<char>, field: Seq<char>) -> Result<AetherType, Seq<char>> {
    match find_object(env, object, 0) {
        None => Err("unknown object `"@ + object + "`"@),
        Some(fields) => match find_field(fields, field, 0) {
            None => Err("unknown field `"@ + object + "."@ + field + "`"@),
            Some(t) => Ok(t),
        },
    }
}

/// The fields the rule language documents, with their types: on
/// `process`, cpu, mem_growth and hp are percentages, mem_bytes and pid
/// integers, name and parent strings, state a process state; on `system`,
/// load is a percentage, total_mem and process_count integers.
pub open spec fn documented_field_type(object: Seq<char>, field: Seq<char>) -> Option<AetherType> {
    if object == "process"@ {
        if field == "cpu"@ || field == "mem_growth"@ || field == "hp"@ {
            Some(AetherType::Percent)
        } else if field == "mem_bytes"@ || field == "pid"@ {
            Some(AetherType::Int)
        } else if field == "name"@ || field == "parent"@ {
            Some(AetherType::Str)
        } else if field == "state"@ {
            Some(AetherType::ProcessState)
        } else {
            None
        }
    } else if object == "system"@ {
        if field == "load"@ {
            Some(AetherType::Percent)
        } else if field == "total_mem"@ || field == "process_count"@ {
            Some(AetherType::Int)
        } else {
            None
        }
    } else {
        None
    }
}

proof fn lemma_find_field_at(fields: Seq<(Seq<char>, AetherType)>, name: Seq<char>, i: int, k: int)
    requires
        0 <= i <= k < fields.len(),
        fields[k].0 == name,
        forall|j: int| i <= j < k ==> fields[j].0 != name,
    ensures
        find_field(fields, name, i) == Some(fields[k].1),
    decreases k - i,
{
    if i < k {
        lemma_find_field_at(fields, name, i + 1, k);
    }
}

proof fn lemma_find_field_none(fields: Seq<(Seq<char>, AetherType)>, name: Seq<char>, i: int)
    requires
        0 <= i <= fields.len(),
        forall|j: int| i <= j < fields.len() ==> fields[j].0 != name,
    ensures
        find_field(fields, name, i) is None,
    decreases fields.len() - i,
{
    if i < fields.len() {
        lemma_find_field_none(fields, name, i + 1);
    }
}

/// The built-in environment resolves exactly the documented fields, each
/// to its documented type, and rejects every other `object.field`.
pub proof fn lemma_builtin_fields_documented(object: Seq<char>, field: Seq<char>)
    ensures
        match documented_field_type(object, field) {
            Some(t) => spec_resolve_field(builtin_objects(), object, field) == Ok::<AetherType, Seq<char>>(t),
            None => spec_resolve_field(builtin_objects(), object, field) is Err,
        },
{
    reveal_strlit("process");
    reveal_strlit("system");
    reveal_strlit("cpu");
    reveal_strlit("mem_bytes");
    reveal_strlit("mem_growth");
    reveal_strlit("state");
    reveal_strlit("name");
    reveal_strlit("pid");
    reveal_strlit("parent");
    reveal_strlit("hp");
    reveal_strlit("load");
    reveal_strlit("total_mem");
    reveal_strlit("process_count");
    let objs = builtin_objects();
    reveal_with_fuel(find_object, 3);
    if object == "process"@ {
        let fs = objs[0].1;
        assert(find_object(objs, object, 0) == Some(fs));
        let names = seq!["cpu"@, "mem_bytes"@, "mem_growth"@, "state"@, "name"@, "pid"@, "parent"@, "hp"@];
        assert forall|j: int| 0 <= j < 8 implies fs[j].0 == #[trigger] names[j] by {}
        assert forall|a: int, b: int| 0 <= a < b < 8 implies #[trigger] names[a] != #[trigger] names[b] by {
            assert(names[a].len() != names[b].len() || names[a][0] != names[b][0] || names[a][1] != names[b][1]
                || names[a][2] != names[b][2]);
        }
        let k = choose|k: int| 0 <= k < 8 && names[k] == field;
        if exists|k: int| 0 <= k < 8 && names[k] == field {
            lemma_find_field_at(fs, field, 0, k);
        } else {
            lemma_find_field_none(fs, field, 0);
        }
    } else if object == "system"@ {
        let fs = objs[1].1;
        assert("process"@ != "system"@) by {
            assert("process"@[0] != "system"@[0]);
        }
        assert(find_object(objs, object, 0) == Some(fs));
        let names = seq!["load"@, "total_mem"@, "process_count"@];
        assert forall|j: int| 0 <= j < 3 implies fs[j].0 == #[trigger] names[j] by {}
        assert forall|a: int, b: int| 0 <= a < b < 3 implies #[trigger] names[a] != #[trigger] names[b] by {
            assert(names[a].len() != names[b].len());
        }
        let k = choose|k: int| 0 <= k < 3 && names[k] == field;
        if exists|k: int| 0 <= k < 3 && names[k] == field {
            lemma_find_field_at(fs, field, 0, k);
        } else {
            lemma_find_field_none(fs, field, 0);
        }
    }
}

fn field(name: &str, t: AetherType) -> (p: (String, AetherType))
    ensures
        p.0@ == name@,
        p.1 == t,
{
    (name.to_owned(), t)
}

impl TypeEnv {
    /// A type environment with the built-in `process` and `system` objects.
    pub fn with_builtins() -> (env: Self)
        ensures
            env@ == builtin_objects(),
    {
        let mut process_fields: Vec<(String, AetherType)> = Vec::new();
        process_fields.push(field("cpu", AetherType::Percent));
        process_fields.push(field("mem_bytes", AetherType::Int));
        process_fields.push(field("mem_growth", AetherType::Percent));
        process_fields.push(field("state", AetherType::ProcessState));
        process_fields.push(field("name", AetherType::Str));
        process_fields.push(field("pid", AetherType::Int));
        process_fields.push(field("parent", AetherType::Str));
        process_fields.push(field("hp", AetherType::Percent));
        let mut system_fields: Vec<(String, AetherType)> = Vec::new();
        system_fields.push(field("load", AetherType::Percent));
        system_fields.push(field("total_mem", AetherType::Int));
        system_fields.push(field("process_count", AetherType::Int));
        let mut objects: Vec<ObjectFields> = Vec::new();
        objects.push(ObjectFields { name: "process".to_owned(), fields: process_fields });
        objects.push(ObjectFields { name: "system".to_owned(), fields: system_fields });
        let env = TypeEnv { objects };
        assert(fields_view(env.objects@[0].fields@) =~= builtin_objects()[0].1);
        assert(fields_view(env.objects@[1].fields@) =~= builtin_objects()[1].1);
        assert(env@ =~= builtin_objects());
        env
    }

    /// Resolve a field access to its type.
    pub fn resolve_field(&self, object: &String, field: &String) -> (r: Result<AetherType, TypeError>)
        ensures
            match spec_resolve_field(self@, object@, field@) {
                Ok(t) => r == Ok::<AetherType, TypeError>(t),
                Err(m) => r matches Err(e) && e.message@ == m,
            },
    {
        let mut i: usize = 0;
        while i < self.objects.len()
            invariant
                i <= self.objects.len(),
                find_object(self@, object@, 0) == find_object(self@, object@, i as int),
            decreases self.objects.len() - i,
        {
            if self.objects[i].name == *object {
                let fields = &self.objects[i].fields;
                assert(self@[i as int] == (self.objects@[i as int].name@, fields_view(fields@)));
                assert(find_object(self@, object@, i as int) == Some(fields_view(fields@)));
                let mut j: usize = 0;
                while j < fields.len()
                    invariant
                        j <= fields.len(),
                        find_object(self@, object@, 0) == Some(fields_view(fields@)),
                        find_field(fields_view(fields@), field@, 0) == find_field(fields_view(fields@), field@, j as int),
                    decreases fields.len() - j,
                {
                    if fields[j].0 == *field {
                        assert(fields_view(fields@)[j as int] == (fields@[j as int].0@, fields@[j as int].1));
                        assert(find_field(fields_view(fields@), field@, j as int) == Some(fields@[j as int].1));
                        return Ok(fields[j].1);
                    }
                    j = j + 1;
                }
                let mut m = String::new();
                push_str(&mut m, "unknown field `");
                push_str(&mut m, object.as_str());
                push_str(&mut m, ".");
                push_str(&mut m, field.as_str());
                push_str(&mut m, "`");
                assert(m@ =~= "unknown field `"@ + object@ + "."@ + field@ + "`"@);
                return Err(TypeError { message: m });
            }
            i = i + 1;
        }
        let mut m = String::new();
        push_str(&mut m, "unknown object `");
        push_str(&mut m, object.as_str());
        push_str(&mut m, "`");
        assert(m@ =~= "unknown object `"@ + object@ + "`"@);
        Err(TypeError { message: m })
    }
}

// ── Checking rules ─────────────────────────────────────────────────

/// The type of a literal.
pub open spec fn spec_literal_type(l: SpecLiteral) -> AetherType {
    match l {
        SpecLiteral::Int(_) => AetherType::Int,
        SpecLiteral::Float(_) => AetherType::Float,
        SpecLiteral::Percent(_) => AetherType::Percent,
        SpecLiteral::Duration(_) => AetherType::Duration,
        SpecLiteral::Str(_) => AetherType::Str,
    }
}

/// The type of an expression, or the error message.
pub open spec fn spec_resolve_expr(env: Seq<SpecObject>, e: SpecExpr) -> Result<AetherType, Seq<char>> {
    match e {
        SpecExpr::FieldAccess { object, field } => spec_resolve_field(env, object, field),
        SpecExpr::Literal(l) => Ok(spec_literal_type(l)),
    }
}

/// Whether the operator orders its operands.
pub open spec fn is_ordered(op: CmpOp) -> bool {
    op is Gt || op is Lt || op is Gte || op is Lte
}

/// The errors of one comparison (at most one).
pub open spec fn comparison_errors(env: Seq<SpecObject>, left: SpecExpr, op: CmpOp, right: SpecExpr) -> Seq<Seq<char>> {
    match spec_resolve_expr(env, left) {
        Err(m) => seq![m],
        Ok(lt) => match spec_resolve_expr(env, right) {
            Err(m) => seq![m],
            Ok(rt) => if is_ordered(op) && !spec_is_numeric(lt) {
                seq!["cannot use `"@ + cmp_op_text(op) + "` on non-numeric type "@ + aether_type_name(lt)]
            } else if !spec_compatible(lt, rt) {
                seq!["type mismatch: cannot compare "@ + aether_type_name(lt) + " with "@ + aether_type_name(rt)]
            } else {
                Seq::empty()
            },
        },
    }
}

/// The errors of a condition tree, left to right.
pub open spec fn condition_errors(env: Seq<SpecObject>, c: SpecCondition) -> Seq<Seq<char>>
    decreases c,
{
    match c {
        SpecCondition::Comparison { left, op, right } => comparison_errors(env, left, op, right),
        SpecCondition::Duration { condition, .. } => condition_errors(env, *condition),
        SpecCondition::And(a, b) => condition_errors(env, *a) + condition_errors(env, *b),
        SpecCondition::Or(a, b) => condition_errors(env, *a) + condition_errors(env, *b),
        SpecCondition::Not(a) => condition_errors(env, *a),
    }
}

/// The errors of one action: an alert or log with an empty message.
pub open spec fn action_errors(a: SpecAction) -> Seq<Seq<char>> {
    match a {
        SpecAction::Alert { message, .. } => if message.len() == 0 {
            seq!["alert message cannot be empty"@]
        } else {
            Seq::empty()
        },
        SpecAction::Log { message } => if message.len() == 0 {
            seq!["log message cannot be empty"@]
        } else {
            Seq::empty()
        },
        SpecAction::Kill => Seq::empty(),
    }
}

/// The errors of the first `n` actions.
pub open spec fn actions_errors(actions: Seq<SpecAction>, n: int) -> Seq<Seq<char>>
    decreases n,
{
    if n <= 0 || n > actions.len() {
        Seq::empty()
    } else {
        actions_errors(actions, n - 1) + action_errors(actions[n - 1])
    }
}

/// The errors of a rule: its condition's, then its actions'.
pub open spec fn rule_errors(env: Seq<SpecObject>, r: SpecRule) -> Seq<Seq<char>> {
    condition_errors(env, r.condition) + actions_errors(r.actions, r.actions.len() as int)
}

/// The errors of the first `n` rules.
pub open spec fn rules_errors(env: Seq<SpecObject>, rules: Seq<SpecRule>, n: int) -> Seq<Seq<char>>
    decreases n,
{
    if n <= 0 || n > rules.len() {
        Seq::empty()
    } else {
        rules_errors(env, rules, n - 1) + rule_errors(env, rules[n - 1])
    }
}

/// Every type error of a rule file, in order.
pub open spec fn spec_check(rules: Seq<SpecRule>) -> Seq<Seq<char>> {
    rules_errors(builtin_objects(), rules, rules.len() as int)
}

/// The errors of the first `n` rules depend on those rules alone.
proof fn lemma_rules_errors_prefix(env: Seq<SpecObject>, r1: Seq<SpecRule>, r2: Seq<SpecRule>, n: int)
    requires
        0 <= n <= r1.len(),
    ensures
        rules_errors(env, r1 + r2, n) == rules_errors(env, r1, n),
    decreases n,
{
    if n > 0 {
        lemma_rules_errors_prefix(env, r1, r2, n - 1);
        assert((r1 + r2)[n - 1] == r1[n - 1]);
    }
}

/// The errors of `r1` followed by the first `k` rules of `r2`.
proof fn lemma_rules_errors_append(env: Seq<SpecObject>, r1: Seq<SpecRule>, r2: Seq<SpecRule>, k: int)
    requires
        0 <= k <= r2.len(),
    ensures
        rules_errors(env, r1 + r2, r1.len() + k) == rules_errors(env, r1, r1.len() as int) + rules_errors(
            env,
            r2,
            k,
        ),
    decreases k,
{
    if k == 0 {
        lemma_rules_errors_prefix(env, r1, r2, r1.len() as int);
        assert(rules_errors(env, r1, r1.len() as int) + Seq::<Seq<char>>::empty() =~= rules_errors(
            env,
            r1,
            r1.len() as int,
        ));
    } else {
        lemma_rules_errors_append(env, r1, r2, k - 1);
        assert((r1 + r2)[r1.len() + k - 1] == r2[k - 1]);
        assert(rules_errors(env, r1 + r2, r1.len() + k) =~= rules_errors(env, r1, r1.len() as int)
            + rules_errors(env, r2, k));
    }
}

/// Checking two rule files together reports the errors of the first, then
/// those of the second, every one of them in order; the whole passes
/// exactly when both parts do.
pub proof fn lemma_check_concatenates(r1: Seq<SpecRule>, r2: Seq<SpecRule>)
    ensures
        spec_check(r1 + r2) == spec_check(r1) + spec_check(r2),
        spec_check(r1 + r2).len() == 0 <==> (spec_check(r1).len() == 0 && spec_check(r2).len() == 0),
{
    lemma_rules_errors_append(builtin_objects(), r1, r2, r2.len() as int);
    assert((r1 + r2).len() == r1.len() + r2.len());
}

/// Type checker for rule files.
pub struct TypeChecker {
    env: TypeEnv,
}

impl TypeChecker {
    /// The checker's environment holds exactly the built-in objects.
    pub closed spec fn wf(&self) -> bool {
        self.env@ == builtin_objects()
    }

    /// Create a new type checker with built-in type definitions.
    pub fn new() -> (c: Self)
        ensures
            c.wf(),
    {
        TypeChecker { env: TypeEnv::with_builtins() }
    }

    /// Type-check a rule file. Returns all errors found, in order.
    pub fn check(&self, file: &RuleFile) -> (r: Result<(), Vec<TypeError>>)
        requires
            self.wf(),
        ensures
            spec_check(rules_view(file.rules@)).len() == 0 ==> r is Ok,
            spec_check(rules_view(file.rules@)).len() != 0 ==>
                (r matches Err(errs) && type_errors_view(errs@) == spec_check(rules_view(file.rules@))),
    {
        let mut errors: Vec<TypeError> = Vec::new();
        let ghost rv = rules_view(file.rules@);
        let mut i: usize = 0;
        while i < file.rules.len()
            invariant
                self.wf(),
                rv == rules_view(file.rules@),
                i <= file.rules.len(),
                type_errors_view(errors@) == rules_errors(builtin_objects(), rv, i as int),
            decreases file.rules.len() - i,
        {
            let ghost before = type_errors_view(errors@);
            self.check_rule(&file.rules[i], &mut errors);
            assert(rv[i as int] == file.rules@[i as int]@);
            assert(type_errors_view(errors@) =~= rules_errors(builtin_objects(), rv, i + 1));
            i = i + 1;
        }
        if errors.len() == 0 {
            Ok(())
        } else {
            Err(errors)
        }
    }

    fn check_rule(&self, rule: &Rule, errors: &mut Vec<TypeError>)
        requires
            self.wf(),
        ensures
            type_errors_view(final(errors)@) == type_errors_view(old(errors)@) + rule_errors(builtin_objects(), rule@),
    {
        let ghost base = type_errors_view(errors@);
        self.check_condition(&rule.condition, errors);
        let ghost mid = type_errors_view(errors@);
        let mut i: usize = 0;
        while i < rule.actions.len()
            invariant
                i <= rule.actions.len(),
                type_errors_view(errors@) == mid + actions_errors(rule@.actions, i as int),
            decreases rule.actions.len() - i,
        {
            self.check_action(&rule.actions[i], errors);
            assert(rule@.actions[i as int] == rule.actions@[i as int]@);
            assert(type_errors_view(errors@) =~= mid + actions_errors(rule@.actions, i + 1));
            i = i + 1;
        }
        assert(type_errors_view(errors@) =~= base + rule_errors(builtin_objects(), rule@));
    }

    fn check_condition(&self, condition: &Condition, errors: &mut Vec<TypeError>)
        requires
            self.wf(),
        ensures
            type_errors_view(final(errors)@) == type_errors_view(old(errors)@) + condition_errors(builtin_objects(), condition@),
        decreases condition,
    {
        let ghost base = type_errors_view(errors@);
        match condition {
            Condition::Comparison { left, op, right } => {
                self.check_comparison(left, *op, right, errors);
            },
            Condition::Duration { condition: inner, .. } => {
                self.check_condition(inner, errors);
            },
            Condition::And(lhs, rhs) | Condition::Or(lhs, rhs) => {
                self.check_condition(lhs, errors);
                self.check_condition(rhs, errors);
                assert(type_errors_view(errors@) =~= base + condition_errors(builtin_objects(), condition@));
            },
            Condition::Not(inner) => {
                self.check_condition(inner, errors);
            },
        }
    }

    fn push_error(errors: &mut Vec<TypeError>, e: TypeError)
        ensures
            type_errors_view(final(errors)@) == type_errors_view(old(errors)@).push(e.message@),
    {
        let ghost base = errors@;
        errors.push(e);
        assert(type_errors_view(errors@) =~= type_errors_view(base).push(e.message@));
    }

    fn check_comparison(&self, left: &Expr, op: CmpOp, right: &Expr, errors: &mut Vec<TypeError>)
        requires
            self.wf(),
        ensures
            type_errors_view(final(errors)@) == type_errors_view(old(errors)@) + comparison_errors(builtin_objects(), left@, op, right@),
    {
        let ghost base = type_errors_view(errors@);
        let left_ty = match self.resolve_expr(left) {
            Ok(ty) => ty,
            Err(e) => {
                Self::push_error(errors, e);
                assert(type_errors_view(errors@) =~= base + comparison_errors(builtin_objects(), left@, op, right@));
                return;
            },
        };
        let right_ty = match self.resolve_expr(right) {
            Ok(ty) => ty,
            Err(e) => {
                Self::push_error(errors, e);
                assert(type_errors_view(errors@) =~= base + comparison_errors(builtin_objects(), left@, op, right@));
                return;
            },
        };
        let ordered = match op {
            CmpOp::Gt | CmpOp::Lt | CmpOp::Gte | CmpOp::Lte => true,
            _ => false,
        };
        if ordered && !left_ty.is_numeric() {
            let mut m = String::new();
            push_str(&mut m, "cannot use `");
            push_str(&mut m, op.as_str());
            push_str(&mut m, "` on non-numeric type ");
            push_str(&mut m, left_ty.name());
            Self::push_error(errors, TypeError { message: m });
            assert(type_errors_view(errors@) =~= base + comparison_errors(builtin_objects(), left@, op, right@));
            return;
        }
        if !left_ty.compatible_with(right_ty) {
            let mut m = String::new();
            push_str(&mut m, "type mismatch: cannot compare ");
            push_str(&mut m, left_ty.name());
            push_str(&mut m, " with ");
            push_str(&mut m, right_ty.name());
            Self::push_error(errors, TypeError { message: m });
            assert(type_errors_view(errors@) =~= base + comparison_errors(builtin_objects(), left@, op, right@));
            return;
        }
        assert(type_errors_view(errors@) =~= base + comparison_errors(builtin_objects(), left@, op, right@));
    }

    fn resolve_expr(&self, expr: &Expr) -> (r: Result<AetherType, TypeError>)
        requires
            self.wf(),
        ensures
            match spec_resolve_expr(builtin_objects(), expr@) {
                Ok(t) => r == Ok::<AetherType, TypeError>(t),
                Err(m) => r matches Err(e) && e.message@ == m,
            },
    {
        match expr {
            Expr::FieldAccess { object, field } => self.env.resolve_field(object, field),
            Expr::Literal(lit) => Ok(Self::literal_type(lit)),
        }
    }

    fn literal_type(lit: &Literal) -> (t: AetherType)
        ensures
            t == spec_literal_type(lit@),
    {
        match lit {
            Literal::Int(_) => AetherType::Int,
            Literal::Float(_) => AetherType::Float,
            Literal::Percent(_) => AetherType::Percent,
            Literal::Duration(_) => AetherType::Duration,
            Literal::Str(_) => AetherType::Str,
        }
    }

    /// Checks that an alert or log message is not empty.
    pub fn check_action(&self, action: &Action, errors: &mut Vec<TypeError>)
        ensures
            type_errors_view(final(errors)@) == type_errors_view(old(errors)@) + action_errors(action@),
    {
        let ghost base = type_errors_view(errors@);
        match action {
            Action::Alert { message, .. } => {
                if message.as_str().is_empty() {
                    Self::push_error(errors, TypeError { message: "alert message cannot be empty".to_owned() });
                }
            },
            Action::Log { message } => {
                if message.as_str().is_empty() {
                    Self::push_error(errors, TypeError { message: "log message cannot be empty".to_owned() });
                }
            },
            Action::Kill => {},
        }
        assert(type_errors_view(errors@) =~= base + action_errors(action@));
    }
}

} // verus!
