//! Requests for specialised templates: a template name and concrete type
//! arguments give a registry key, and a key that is neither registered nor
//! already pending is queued, once, for expansion.
use vstd::prelude::*;
use crate::text::{split_dunder, split_dunder_exec, str_eq};
use crate::types::{Type, TypeKey, SpecType, list_view, copy_types};
use crate::equality::type_lists_equal;
use crate::resolution::key_model;

verus! {

/// A template waiting to be expanded with concrete arguments.
pub struct SpecializationTask {
    pub template_name: String,
    pub args: Vec<Type>,
    pub key: TypeKey,
    pub is_enum: bool,
}

/// The keys already registered, the keys pending expansion, and the queue
/// of expansions to do, in order.
pub struct MonoState {
    pub struct_registry: Vec<TypeKey>,
    pub enum_registry: Vec<TypeKey>,
    pub pending: Vec<TypeKey>,
    pub work_queue: Vec<SpecializationTask>,
}

/// The models of a list of keys.
pub open spec fn key_models(v: Seq<TypeKey>) -> Seq<(Seq<Seq<char>>, Seq<char>, Option<Seq<SpecType>>)> {
    v.map_values(|k: TypeKey| key_model(k))
}

/// The model of a queued task.
pub open spec fn task_model(t: SpecializationTask) -> (Seq<char>, Seq<SpecType>, (
    Seq<Seq<char>>,
    Seq<char>,
    Option<Seq<SpecType>>,
), bool) {
    (t.template_name@, list_view(t.args@), key_model(t.key), t.is_enum)
}

/// The models of a queue of tasks.
pub open spec fn task_models(v: Seq<SpecializationTask>) -> Seq<(Seq<char>, Seq<SpecType>, (
    Seq<Seq<char>>,
    Seq<char>,
    Option<Seq<SpecType>>,
), bool)> {
    v.map_values(|t: SpecializationTask| task_model(t))
}

/// The key of a template specialised with `args`: the module path is every
/// `"__"`-separated piece of the template name but the last, which is the
/// name.
pub open spec fn template_key(base: Seq<char>, args: Seq<SpecType>) -> (
    Seq<Seq<char>>,
    Seq<char>,
    Option<Seq<SpecType>>,
) {
    (split_dunder(base).drop_last(), split_dunder(base).last(), Some(args))
}

/// Whether two keys are the same key.
pub fn keys_equal(a: &TypeKey, b: &TypeKey) -> (r: bool)
    ensures
        r == (key_model(*a) == key_model(*b)),
{
    if !str_eq(a.name.as_str(), b.name.as_str()) {
        return false;
    }
    if a.path.len() != b.path.len() {
        proof {
            assert(key_model(*a).0.len() != key_model(*b).0.len());
        }
        return false;
    }
    let mut i: usize = 0;
    while i < a.path.len()
        invariant
            0 <= i <= a.path@.len(),
            a.path@.len() == b.path@.len(),
            forall|j: int| 0 <= j < i ==> a.path@[j]@ == b.path@[j]@,
        decreases a.path@.len() - i,
    {
        if !str_eq(a.path[i].as_str(), b.path[i].as_str()) {
            proof {
                assert(key_model(*a).0[i as int] != key_model(*b).0[i as int]);
            }
            return false;
        }
        i += 1;
    }
    proof {
        assert(key_model(*a).0 =~= key_model(*b).0);
    }
    match (&a.specialization, &b.specialization) {
        (Some(x), Some(y)) => type_lists_equal(x, y),
        (None, None) => true,
        _ => false,
    }
}

/// Whether the list holds the key.
fn holds_key(v: &Vec<TypeKey>, k: &TypeKey) -> (r: bool)
    ensures
        r == key_models(v@).contains(key_model(*k)),
{
    let mut i: usize = 0;
    while i < v.len()
        invariant
            0 <= i <= v@.len(),
            forall|j: int| 0 <= j < i ==> key_model(v@[j]) != key_model(*k),
        decreases v@.len() - i,
    {
        if keys_equal(&v[i], k) {
            proof {
                assert(key_models(v@)[i as int] == key_model(*k));
            }
            return true;
        }
        i += 1;
    }
    proof {
        assert forall|j: int| 0 <= j < key_models(v@).len() implies key_models(v@)[j] != key_model(*k) by {
            assert(key_models(v@)[j] == key_model(v@[j]));
        }
    }
    false
}

/// The key of a template name specialised with `args`.
fn make_key(base_name: &str, args: &Vec<Type>) -> (r: TypeKey)
    ensures
        key_model(r) == template_key(base_name@, list_view(args@)),
{
    let mut parts = split_dunder_exec(base_name);
    proof {
        crate::text::lemma_split_nonempty(base_name@, 0, 0);
        assert(parts@.len() >= 1);
    }
    let name = parts.pop().unwrap();
    let r = TypeKey { path: parts, name, specialization: Some(copy_types(args)) };
    proof {
        assert(key_model(r).0 =~= split_dunder(base_name@).drop_last());
    }
    r
}

impl MonoState {
    /// Nothing registered, pending or queued.
    pub fn new() -> (r: MonoState)
        ensures
            r.struct_registry@.len() == 0,
            r.enum_registry@.len() == 0,
            r.pending@.len() == 0,
            r.work_queue@.len() == 0,
    {
        MonoState { struct_registry: Vec::new(), enum_registry: Vec::new(), pending: Vec::new(), work_queue: Vec::new() }
    }

    /// The key of template `base_name` specialised with `concrete_tys`.
    /// Unless that key is already in the registry of its kind (enums when
    /// `is_enum`) or pending, it becomes pending and a task to expand it is
    /// queued; a repeated request queues nothing.
    pub fn specialize_template(&mut self, base_name: &str, concrete_tys: &Vec<Type>, is_enum: bool) -> (r: Result<
        TypeKey,
        String,
    >)
        ensures
            r matches Ok(k) && key_model(k) == template_key(base_name@, list_view(concrete_tys@)),
            final(self).struct_registry@ == old(self).struct_registry@,
            final(self).enum_registry@ == old(self).enum_registry@,
            ({
                let key = template_key(base_name@, list_view(concrete_tys@));
                let registered = if is_enum {
                    key_models(old(self).enum_registry@).contains(key)
                } else {
                    key_models(old(self).struct_registry@).contains(key)
                };
                let fresh = !registered && !key_models(old(self).pending@).contains(key);
                &&& fresh ==> key_models(final(self).pending@) == key_models(old(self).pending@).push(key)
                &&& fresh ==> task_models(final(self).work_queue@) == task_models(old(self).work_queue@).push(
                    (base_name@, list_view(concrete_tys@), key, is_enum),
                )
                &&& !fresh ==> final(self).pending@ == old(self).pending@
                &&& !fresh ==> final(self).work_queue@ == old(self).work_queue@
            }),
    {
        let key = make_key(base_name, concrete_tys);
        let exists = if is_enum {
            holds_key(&self.enum_registry, &key)
        } else {
            holds_key(&self.struct_registry, &key)
        };
        if !exists && !holds_key(&self.pending, &key) {
            let pending_key = make_key(base_name, concrete_tys);
            let task_key = make_key(base_name, concrete_tys);
            let ghost old_pending = self.pending@;
            let ghost old_queue = self.work_queue@;
            self.pending.push(pending_key);
            let task = SpecializationTask {
                template_name: base_name.to_string(),
                args: copy_types(concrete_tys),
                key: task_key,
                is_enum,
            };
            self.work_queue.push(task);
            proof {
                assert(key_models(self.pending@) =~= key_models(old_pending).push(key_model(key)));
                assert(task_models(self.work_queue@) =~= task_models(old_queue).push(
                    (base_name@, list_view(concrete_tys@), key_model(key), is_enum),
                ));
            }
        }
        Ok(key)
    }
}

} // verus!
