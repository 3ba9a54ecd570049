//! Route analysis: derives the route table of the web service from the
//! effect sets and the functions of a module.

use vstd::prelude::*;
use vstd::string::StringExecFns;
use crate::ast::{Module, ModuleView, TypeDef, TypeDefView, FieldDef, FieldDefView, EffectSetDef,
    EffectSetView, Effect, EffectView, EffectKind, FnDef, FnDefView, ParamDef, ParamDefView,
    Variant, VariantView, VariantKind, VariantKindView, TypeExpr, TypeView, variants_view,
    type_fields_view, strs_view, effects_view, effect_sets_view, fndefs_view, typedefs_view,
    fields_view, params_view, opt_str_view};
use crate::codegen::rust::first_set;
use crate::codegen::rust_v2::{store_target_to_type as target_type, store_type};
use crate::names::{pascal, snake, title, to_pascal as pascal_case, to_snake as snake_case,
    to_title as title_case};
use crate::text::{chars_of, left, lower_text, owned, str_eq, str_lower};

verus! {

broadcast use {crate::ast::group_ast_views};

/// HTTP method of a route.
#[derive(Debug, Clone, Copy, PartialEq)]
pub enum HttpMethod {
    Get,
    Post,
}

/// The kind of a route.
#[derive(Debug, Clone, Copy, PartialEq)]
pub enum RouteKind {
    List,
    NewForm,
    Create,
    Show,
    Delete,
}

/// A store type that the effect sets refer to.
#[derive(Debug, Clone)]
pub struct StoreInfo {
    /// Name of the type that the store holds, such as `User`.
    pub ty_name: String,
    pub plural: String,
    pub singular: String,
    /// Whether any effect writes to the store.
    pub needs_mut: bool,
}

/// A field of an HTML form.
#[derive(Debug, Clone)]
pub struct FormField {
    pub name: String,
    pub label: String,
    pub input_type: String,
    pub min_len: Option<i64>,
    pub max_len: Option<i64>,
    pub required: bool,
}

/// What a route knows of the function behind it.
#[derive(Debug, Clone)]
pub struct FnRoute {
    pub fn_name: String,
    pub result_enum: String,
    pub input_struct: Option<String>,
    pub variants: Vec<RouteVariant>,
}

/// A variant of a function's result, with its HTTP metadata.
#[derive(Debug, Clone)]
pub struct RouteVariant {
    pub is_ok: bool,
    /// Absent for a success.
    pub tag: Option<String>,
    pub variant_name: String,
    pub http_status: u16,
    pub payload_kind: PayloadKind,
}

#[derive(Debug, Clone)]
pub enum PayloadKind {
    Type(String),
    Mapping(Vec<(String, String)>),
    List(String),
    Unit,
}

/// A single route of the generated web service.
#[derive(Debug, Clone)]
pub struct Route {
    pub kind: RouteKind,
    pub method: HttpMethod,
    pub path: String,
    pub api_path: Option<String>,
    pub handler_name: String,
    pub api_handler_name: Option<String>,
    pub function: Option<FnRoute>,
    pub store_type: String,
    pub form_fields: Vec<FormField>,
}

/// The route table of a module.
#[derive(Debug, Clone)]
pub struct RouteTable {
    pub module_name: String,
    pub store_types: Vec<StoreInfo>,
    pub routes: Vec<Route>,
}

pub ghost struct StoreInfoView {
    pub ty_name: Seq<char>,
    pub plural: Seq<char>,
    pub singular: Seq<char>,
    pub needs_mut: bool,
}

pub ghost struct FormFieldView {
    pub name: Seq<char>,
    pub label: Seq<char>,
    pub input_type: Seq<char>,
    pub min_len: Option<i64>,
    pub max_len: Option<i64>,
    pub required: bool,
}

pub ghost struct FnRouteView {
    pub fn_name: Seq<char>,
    pub result_enum: Seq<char>,
    pub input_struct: Option<Seq<char>>,
    pub variants: Seq<RouteVariantView>,
}

pub ghost struct RouteVariantView {
    pub is_ok: bool,
    pub tag: Option<Seq<char>>,
    pub variant_name: Seq<char>,
    pub http_status: u16,
    pub payload_kind: PayloadKindView,
}

pub ghost enum PayloadKindView {
    Type(Seq<char>),
    Mapping(Seq<(Seq<char>, Seq<char>)>),
    List(Seq<char>),
    Unit,
}

pub ghost struct RouteView {
    pub kind: RouteKind,
    pub method: HttpMethod,
    pub path: Seq<char>,
    pub api_path: Option<Seq<char>>,
    pub handler_name: Seq<char>,
    pub api_handler_name: Option<Seq<char>>,
    pub function: Option<FnRouteView>,
    pub store_type: Seq<char>,
    pub form_fields: Seq<FormFieldView>,
}

pub ghost struct RouteTableView {
    pub module_name: Seq<char>,
    pub store_types: Seq<StoreInfoView>,
    pub routes: Seq<RouteView>,
}

impl View for StoreInfo {
    type V = StoreInfoView;

    open spec fn view(&self) -> StoreInfoView {
        StoreInfoView {
            ty_name: self.ty_name@,
            plural: self.plural@,
            singular: self.singular@,
            needs_mut: self.needs_mut,
        }
    }
}

impl View for FormField {
    type V = FormFieldView;

    open spec fn view(&self) -> FormFieldView {
        FormFieldView {
            name: self.name@,
            label: self.label@,
            input_type: self.input_type@,
            min_len: self.min_len,
            max_len: self.max_len,
            required: self.required,
        }
    }
}

/// The views of a sequence of pairs of strings.
pub open spec fn pairs_view(s: Seq<(String, String)>) -> Seq<(Seq<char>, Seq<char>)> {
    Seq::new(s.len(), |i: int| (s[i].0@, s[i].1@))
}

impl View for PayloadKind {
    type V = PayloadKindView;

    open spec fn view(&self) -> PayloadKindView {
        match self {
            PayloadKind::Type(s) => PayloadKindView::Type(s@),
            PayloadKind::Mapping(fields) => PayloadKindView::Mapping(pairs_view(fields@)),
            PayloadKind::List(s) => PayloadKindView::List(s@),
            PayloadKind::Unit => PayloadKindView::Unit,
        }
    }
}

impl View for RouteVariant {
    type V = RouteVariantView;

    open spec fn view(&self) -> RouteVariantView {
        RouteVariantView {
            is_ok: self.is_ok,
            tag: opt_str_view(self.tag),
            variant_name: self.variant_name@,
            http_status: self.http_status,
            payload_kind: self.payload_kind@,
        }
    }
}

/// The views of a sequence of route variants.
pub open spec fn route_variants_view(s: Seq<RouteVariant>) -> Seq<RouteVariantView> {
    Seq::new(s.len(), |i: int| s[i]@)
}

impl View for FnRoute {
    type V = FnRouteView;

    open spec fn view(&self) -> FnRouteView {
        FnRouteView {
            fn_name: self.fn_name@,
            result_enum: self.result_enum@,
            input_struct: opt_str_view(self.input_struct),
            variants: route_variants_view(self.variants@),
        }
    }
}

/// The views of a sequence of form fields.
pub open spec fn form_fields_view(s: Seq<FormField>) -> Seq<FormFieldView> {
    Seq::new(s.len(), |i: int| s[i]@)
}

impl View for Route {
    type V = RouteView;

    open spec fn view(&self) -> RouteView {
        RouteView {
            kind: self.kind,
            method: self.method,
            path: self.path@,
            api_path: opt_str_view(self.api_path),
            handler_name: self.handler_name@,
            api_handler_name: opt_str_view(self.api_handler_name),
            function: match self.function {
                Some(f) => Some(f@),
                None => None,
            },
            store_type: self.store_type@,
            form_fields: form_fields_view(self.form_fields@),
        }
    }
}

/// The views of a sequence of stores.
pub open spec fn store_infos_view(s: Seq<StoreInfo>) -> Seq<StoreInfoView> {
    Seq::new(s.len(), |i: int| s[i]@)
}

/// The views of a sequence of routes.
pub open spec fn routes_view(s: Seq<Route>) -> Seq<RouteView> {
    Seq::new(s.len(), |i: int| s[i]@)
}

impl View for RouteTable {
    type V = RouteTableView;

    open spec fn view(&self) -> RouteTableView {
        RouteTableView {
            module_name: self.module_name@,
            store_types: store_infos_view(self.store_types@),
            routes: routes_view(self.routes@),
        }
    }
}

pub broadcast proof fn lemma_pairs_push(s: Seq<(String, String)>, x: (String, String))
    ensures
        #[trigger] pairs_view(s.push(x)) == pairs_view(s).push((x.0@, x.1@)),
{
    assert(pairs_view(s.push(x)) =~= pairs_view(s).push((x.0@, x.1@)));
}

pub broadcast proof fn lemma_pairs_empty()
    ensures
        #[trigger] pairs_view(Seq::<(String, String)>::empty()) == Seq::<(Seq<char>, Seq<char>)>::empty(),
{
    assert(pairs_view(Seq::<(String, String)>::empty()) =~= Seq::<(Seq<char>, Seq<char>)>::empty());
}

pub broadcast proof fn lemma_route_variants_push(s: Seq<RouteVariant>, x: RouteVariant)
    ensures
        #[trigger] route_variants_view(s.push(x)) == route_variants_view(s).push(x@),
{
    assert(route_variants_view(s.push(x)) =~= route_variants_view(s).push(x@));
}

pub broadcast proof fn lemma_route_variants_empty()
    ensures
        #[trigger] route_variants_view(Seq::<RouteVariant>::empty()) == Seq::<RouteVariantView>::empty(),
{
    assert(route_variants_view(Seq::<RouteVariant>::empty()) =~= Seq::<RouteVariantView>::empty());
}

pub broadcast proof fn lemma_form_fields_push(s: Seq<FormField>, x: FormField)
    ensures
        #[trigger] form_fields_view(s.push(x)) == form_fields_view(s).push(x@),
{
    assert(form_fields_view(s.push(x)) =~= form_fields_view(s).push(x@));
}

pub broadcast proof fn lemma_form_fields_empty()
    ensures
        #[trigger] form_fields_view(Seq::<FormField>::empty()) == Seq::<FormFieldView>::empty(),
{
    assert(form_fields_view(Seq::<FormField>::empty()) =~= Seq::<FormFieldView>::empty());
}

pub broadcast proof fn lemma_store_infos_push(s: Seq<StoreInfo>, x: StoreInfo)
    ensures
        #[trigger] store_infos_view(s.push(x)) == store_infos_view(s).push(x@),
{
    assert(store_infos_view(s.push(x)) =~= store_infos_view(s).push(x@));
}

pub broadcast proof fn lemma_store_infos_empty()
    ensures
        #[trigger] store_infos_view(Seq::<StoreInfo>::empty()) == Seq::<StoreInfoView>::empty(),
{
    assert(store_infos_view(Seq::<StoreInfo>::empty()) =~= Seq::<StoreInfoView>::empty());
}

pub broadcast proof fn lemma_routes_push(s: Seq<Route>, x: Route)
    ensures
        #[trigger] routes_view(s.push(x)) == routes_view(s).push(x@),
{
    assert(routes_view(s.push(x)) =~= routes_view(s).push(x@));
}

pub broadcast proof fn lemma_routes_empty()
    ensures
        #[trigger] routes_view(Seq::<Route>::empty()) == Seq::<RouteView>::empty(),
{
    assert(routes_view(Seq::<Route>::empty()) =~= Seq::<RouteView>::empty());
}

pub broadcast group group_route_views {
    lemma_pairs_push,
    lemma_pairs_empty,
    lemma_route_variants_push,
    lemma_route_variants_empty,
    lemma_form_fields_push,
    lemma_form_fields_empty,
    lemma_store_infos_push,
    lemma_store_infos_empty,
    lemma_routes_push,
    lemma_routes_empty,
}


/// The characters of `s` from `i` on with each `from` as `to`.
pub open spec fn replaced_from(s: Seq<char>, from: char, to: char, i: int, acc: Seq<char>) -> Seq<
    char,
>
    decreases left(s.len(), i),
{
    if 0 <= i < s.len() {
        replaced_from(
            s,
            from,
            to,
            i + 1,
            if s[i] == from {
                acc.push(to)
            } else {
                acc.push(s[i])
            },
        )
    } else {
        acc
    }
}

/// `s` with each `from` as `to`.
pub open spec fn replaced(s: Seq<char>, from: char, to: char) -> Seq<char> {
    replaced_from(s, from, to, 0, Seq::empty())
}

/// `s` with each `from` as `to`.
pub fn replace_char(s: &str, from: char, to: char) -> (r: String)
    ensures
        r@ == replaced(s@, from, to),
{
    let chars = chars_of(s);
    let mut r = String::new();
    let mut i: usize = 0;
    while i < chars.len()
        invariant
            i <= chars.len(),
            replaced_from(chars@, from, to, i as int, r@) == replaced_from(
                chars@,
                from,
                to,
                0,
                Seq::empty(),
            ),
        decreases chars.len() - i,
    {
        if chars[i] == from {
            r.push(to);
        } else {
            r.push(chars[i]);
        }
        i += 1;
    }
    r
}

/// The plural of a noun: the noun followed by `s`.
pub open spec fn plural_of(s: Seq<char>) -> Seq<char> {
    s + "s"@
}

/// Forms the plural of a noun by appending `s`.
pub fn pluralize(s: &str) -> (r: String)
    ensures
        r@ == plural_of(s@),
{
    let mut r = owned(s);
    r.append("s");
    r
}

/// Converts a kebab-case name to snake case, dropping `?` and `!`.
pub fn to_snake(name: &str) -> (r: String)
    ensures
        r@ == snake(name@),
{
    snake_case(name)
}

/// Converts a kebab-case name to Pascal case, dropping `?` and `!`.
pub fn to_pascal(name: &str) -> (r: String)
    ensures
        r@ == pascal(name@, true),
{
    pascal_case(name)
}

/// Converts a name to title case.
pub fn to_title(name: &str) -> (r: String)
    ensures
        r@ == title(name@),
{
    title_case(name)
}

/// Converts a store target such as `user-store` to a type name such as `User`.
pub fn store_target_to_type(target: &str) -> (r: String)
    ensures
        r@ == store_type(target@),
{
    target_type(target)
}

/// The index of the first store of type `t` from `i` on, or -1.
pub open spec fn store_at(stores: Seq<StoreInfoView>, t: Seq<char>, i: int) -> int
    decreases left(stores.len(), i),
{
    if 0 <= i < stores.len() {
        if stores[i].ty_name == t {
            i
        } else {
            store_at(stores, t, i + 1)
        }
    } else {
        -1
    }
}

/// The store of type `t` as first met.
pub open spec fn new_store(t: Seq<char>, write: bool) -> StoreInfoView {
    StoreInfoView {
        ty_name: t,
        plural: plural_of(lower_text(t)),
        singular: lower_text(t),
        needs_mut: write,
    }
}

/// `stores` with the store of type `t`; a write makes the store mutable.
pub open spec fn with_store(stores: Seq<StoreInfoView>, t: Seq<char>, write: bool) -> Seq<
    StoreInfoView,
> {
    let k = store_at(stores, t, 0);
    if 0 <= k < stores.len() {
        if write {
            stores.update(k, StoreInfoView { needs_mut: true, ..stores[k] })
        } else {
            stores
        }
    } else {
        stores.push(new_store(t, write))
    }
}

/// `stores` with the stores that the effects from `j` on read or write.
pub open spec fn effect_stores(stores: Seq<StoreInfoView>, effects: Seq<EffectView>, j: int) -> Seq<
    StoreInfoView,
>
    decreases left(effects.len(), j),
{
    if 0 <= j < effects.len() {
        effect_stores(
            if effects[j].kind is Sends {
                stores
            } else {
                with_store(stores, store_type(effects[j].target), effects[j].kind is Writes)
            },
            effects,
            j + 1,
        )
    } else {
        stores
    }
}

/// `stores` with the stores of the effect sets from `i` on.
pub open spec fn module_stores(stores: Seq<StoreInfoView>, sets: Seq<EffectSetView>, i: int) -> Seq<
    StoreInfoView,
>
    decreases left(sets.len(), i),
{
    if 0 <= i < sets.len() {
        module_stores(effect_stores(stores, sets[i].effects, 0), sets, i + 1)
    } else {
        stores
    }
}

/// The stores that the effect sets of a module read or write, each once,
/// in the order in which the effect sets name them.
pub open spec fn stores_of(m: ModuleView) -> Seq<StoreInfoView> {
    module_stores(Seq::empty(), m.effect_sets, 0)
}

fn note_store(stores: &mut Vec<StoreInfo>, ty_name: String, write: bool)
    ensures
        store_infos_view(final(stores)@) == with_store(
            store_infos_view(old(stores)@),
            ty_name@,
            write,
        ),
{
    broadcast use group_route_views;

    let ghost vs = store_infos_view(stores@);
    let mut i: usize = 0;
    while i < stores.len()
        invariant
            i <= stores.len(),
            stores@ == old(stores)@,
            store_at(vs, ty_name@, i as int) == store_at(vs, ty_name@, 0),
        decreases stores.len() - i,
    {
        if str_eq(stores[i].ty_name.as_str(), ty_name.as_str()) {
            if write {
                let updated = StoreInfo {
                    ty_name: stores[i].ty_name.clone(),
                    plural: stores[i].plural.clone(),
                    singular: stores[i].singular.clone(),
                    needs_mut: true,
                };
                stores.set(i, updated);
                assert(store_infos_view(stores@) =~= with_store(vs, ty_name@, write));
            }
            return ;
        }
        i += 1;
    }
    let singular = str_lower(ty_name.as_str());
    let plural = pluralize(singular.as_str());
    stores.push(StoreInfo { ty_name, plural, singular, needs_mut: write });
}

/// The stores that the effect sets of `module` read or write.
pub fn collect_store_types(module: &Module) -> (stores: Vec<StoreInfo>)
    ensures
        store_infos_view(stores@) == stores_of(module@),
{
    broadcast use group_route_views;

    let ghost sets = effect_sets_view(module.effect_sets@);
    let mut stores: Vec<StoreInfo> = Vec::new();
    let mut i: usize = 0;
    while i < module.effect_sets.len()
        invariant
            i <= module.effect_sets.len(),
            module_stores(store_infos_view(stores@), sets, i as int) == module_stores(
                Seq::empty(),
                sets,
                0,
            ),
        decreases module.effect_sets.len() - i,
    {
        let es = &module.effect_sets[i];
        let ghost effects = effects_view(es.effects@);
        let ghost start = store_infos_view(stores@);
        let mut j: usize = 0;
        while j < es.effects.len()
            invariant
                j <= es.effects.len(),
                effect_stores(store_infos_view(stores@), effects, j as int) == effect_stores(
                    start,
                    effects,
                    0,
                ),
            decreases es.effects.len() - j,
        {
            let effect = &es.effects[j];
            match effect.kind {
                EffectKind::Sends => {},
                EffectKind::Writes => {
                    note_store(&mut stores, target_type(effect.target.as_str()), true);
                },
                EffectKind::Reads => {
                    note_store(&mut stores, target_type(effect.target.as_str()), false);
                },
            }
            j += 1;
        }
        i += 1;
    }
    stores
}

/// Whether one of the first `n` effects is a write.
pub open spec fn any_write(effects: Seq<EffectView>, n: int) -> bool
    decreases n,
{
    if n <= 0 || n > effects.len() {
        false
    } else {
        effects[n - 1].kind is Writes || any_write(effects, n - 1)
    }
}

/// Whether one of the effect sets that the first `n` names stand for holds a write.
pub open spec fn has_writes(sets: Seq<EffectSetView>, names: Seq<Seq<char>>, n: int) -> bool
    decreases n,
{
    if n <= 0 || n > names.len() {
        false
    } else {
        (match first_set(sets, names[n - 1], 0) {
            Some(es) => any_write(es.effects, es.effects.len() as int),
            None => false,
        }) || has_writes(sets, names, n - 1)
    }
}

fn find_set<'a>(sets: &'a Vec<EffectSetDef>, name: &str) -> (r: Option<&'a EffectSetDef>)
    ensures
        match r {
            Some(es) => first_set(effect_sets_view(sets@), name@, 0) == Some(es@),
            None => first_set(effect_sets_view(sets@), name@, 0).is_none(),
        },
{
    let ghost vs = effect_sets_view(sets@);
    let mut i: usize = 0;
    while i < sets.len()
        invariant
            i <= sets.len(),
            first_set(vs, name@, i as int) == first_set(vs, name@, 0),
        decreases sets.len() - i,
    {
        if str_eq(sets[i].name.as_str(), name) {
            return Some(&sets[i]);
        }
        i += 1;
    }
    None
}

fn func_has_writes(func: &FnDef, module: &Module) -> (r: bool)
    ensures
        r == has_writes(module@.effect_sets, func@.effects, func@.effects.len() as int),
{
    let ghost sets = module@.effect_sets;
    let ghost names = func@.effects;
    let mut found = false;
    let mut i: usize = 0;
    while i < func.effects.len()
        invariant
            i <= func.effects.len(),
            found == has_writes(sets, names, i as int),
        decreases func.effects.len() - i,
    {
        if let Some(es) = find_set(&module.effect_sets, func.effects[i].as_str()) {
            let ghost effects = effects_view(es.effects@);
            let mut w = false;
            let mut j: usize = 0;
            while j < es.effects.len()
                invariant
                    j <= es.effects.len(),
                    w == any_write(effects, j as int),
                decreases es.effects.len() - j,
            {
                if let EffectKind::Writes = es.effects[j].kind {
                    w = true;
                }
                j += 1;
            }
            if w {
                found = true;
            }
        }
        i += 1;
    }
    found
}

/// The index, among `stores`, of the store of the first effect from `j` on
/// that reads or writes a store of the table; -1 where there is none.
pub open spec fn effect_store_at(stores: Seq<StoreInfoView>, effects: Seq<EffectView>, j: int) -> int
    decreases left(effects.len(), j),
{
    if 0 <= j < effects.len() {
        if !(effects[j].kind is Sends) && store_at(stores, store_type(effects[j].target), 0) >= 0 {
            store_at(stores, store_type(effects[j].target), 0)
        } else {
            effect_store_at(stores, effects, j + 1)
        }
    } else {
        -1
    }
}

/// The index of the store of a function: that of the first effect, in the
/// order of the function's effect sets, that reads or writes a store.
pub open spec fn fn_store_at(
    stores: Seq<StoreInfoView>,
    sets: Seq<EffectSetView>,
    names: Seq<Seq<char>>,
    i: int,
) -> int
    decreases left(names.len(), i),
{
    if 0 <= i < names.len() {
        match first_set(sets, names[i], 0) {
            Some(es) => if effect_store_at(stores, es.effects, 0) >= 0 {
                effect_store_at(stores, es.effects, 0)
            } else {
                fn_store_at(stores, sets, names, i + 1)
            },
            None => fn_store_at(stores, sets, names, i + 1),
        }
    } else {
        -1
    }
}

pub proof fn lemma_store_at_bounds(stores: Seq<StoreInfoView>, t: Seq<char>, i: int)
    requires
        0 <= i,
    ensures
        -1 <= store_at(stores, t, i) < stores.len(),
        store_at(stores, t, i) >= 0 ==> stores[store_at(stores, t, i)].ty_name == t,
    decreases left(stores.len(), i),
{
    if i < stores.len() && stores[i].ty_name != t {
        lemma_store_at_bounds(stores, t, i + 1);
    }
}

fn find_store(stores: &Vec<StoreInfo>, ty_name: &str) -> (r: Option<usize>)
    ensures
        match r {
            Some(k) => store_at(store_infos_view(stores@), ty_name@, 0) == k && k < stores@.len(),
            None => store_at(store_infos_view(stores@), ty_name@, 0) == -1,
        },
{
    let ghost vs = store_infos_view(stores@);
    let mut i: usize = 0;
    while i < stores.len()
        invariant
            i <= stores.len(),
            store_at(vs, ty_name@, i as int) == store_at(vs, ty_name@, 0),
        decreases stores.len() - i,
    {
        if str_eq(stores[i].ty_name.as_str(), ty_name) {
            return Some(i);
        }
        i += 1;
    }
    None
}

fn find_fn_store_type(func: &FnDef, module: &Module, stores: &Vec<StoreInfo>) -> (r: Option<usize>)
    ensures
        match r {
            Some(k) => fn_store_at(
                store_infos_view(stores@),
                module@.effect_sets,
                func@.effects,
                0,
            ) == k && k < stores@.len(),
            None => fn_store_at(store_infos_view(stores@), module@.effect_sets, func@.effects, 0)
                == -1,
        },
{
    let ghost vs = store_infos_view(stores@);
    let ghost sets = module@.effect_sets;
    let ghost names = func@.effects;
    let mut i: usize = 0;
    while i < func.effects.len()
        invariant
            i <= func.effects.len(),
            fn_store_at(vs, sets, names, i as int) == fn_store_at(vs, sets, names, 0),
        decreases func.effects.len() - i,
    {
        if let Some(es) = find_set(&module.effect_sets, func.effects[i].as_str()) {
            let ghost effects = effects_view(es.effects@);
            let mut j: usize = 0;
            while j < es.effects.len()
                invariant
                    j <= es.effects.len(),
                    effect_store_at(vs, effects, j as int) == effect_store_at(vs, effects, 0),
                decreases es.effects.len() - j,
            {
                let effect = &es.effects[j];
                let sends = match effect.kind {
                    EffectKind::Sends => true,
                    _ => false,
                };
                if !sends {
                    let t = target_type(effect.target.as_str());
                    if let Some(k) = find_store(stores, t.as_str()) {
                        return Some(k);
                    }
                }
                j += 1;
            }
        }
        i += 1;
    }
    None
}


/// The target type of a payload field, in short form.
pub open spec fn simple_type(acc: Seq<char>, t: TypeView) -> Seq<char>
    decreases t,
{
    match t {
        TypeView::Named(name) => if name == "UUID"@ {
            acc + "Uuid"@
        } else if name == "String"@ {
            acc + "String"@
        } else if name == "Int"@ {
            acc + "i64"@
        } else if name == "Bool"@ {
            acc + "bool"@
        } else {
            acc + name
        },
        TypeView::List(inner) => simple_type(acc + "Vec<"@, *inner) + ">"@,
        _ => acc + "String"@,
    }
}

fn push_simple_type(out: &mut String, t: &TypeExpr)
    ensures
        final(out)@ == simple_type(old(out)@, t@),
    decreases t,
{
    match t {
        TypeExpr::Named(name) => {
            let n = name.as_str();
            if str_eq(n, "UUID") {
                out.append("Uuid");
            } else if str_eq(n, "String") {
                out.append("String");
            } else if str_eq(n, "Int") {
                out.append("i64");
            } else if str_eq(n, "Bool") {
                out.append("bool");
            } else {
                out.append(n);
            }
        },
        TypeExpr::List(inner) => {
            out.append("Vec<");
            push_simple_type(out, inner);
            out.append(">");
        },
        _ => {
            out.append("String");
        },
    }
}

fn type_expr_to_rust_simple(t: &TypeExpr) -> (r: String)
    ensures
        r@ == simple_type(Seq::empty(), t@),
{
    let mut r = String::new();
    push_simple_type(&mut r, t);
    r
}

/// The fields of a map payload from `i` on, appended to `acc`.
pub open spec fn payload_fields(
    fields: Seq<(Seq<char>, TypeView)>,
    i: int,
    acc: Seq<(Seq<char>, Seq<char>)>,
) -> Seq<(Seq<char>, Seq<char>)>
    decreases left(fields.len(), i),
{
    if 0 <= i < fields.len() {
        payload_fields(
            fields,
            i + 1,
            acc.push((snake(fields[i].0), simple_type(Seq::empty(), fields[i].1))),
        )
    } else {
        acc
    }
}

/// The kind of payload that a type stands for.
pub open spec fn payload_of(t: TypeView) -> PayloadKindView {
    match t {
        TypeView::Named(n) => if n == "Unit"@ {
            PayloadKindView::Unit
        } else {
            PayloadKindView::Type(n)
        },
        TypeView::Mapping(fields) => PayloadKindView::Mapping(payload_fields(fields, 0, Seq::empty())),
        TypeView::List(inner) => PayloadKindView::List(simple_type("Vec<"@, *inner) + ">"@),
        _ => PayloadKindView::Unit,
    }
}

fn type_expr_to_payload(t: &TypeExpr) -> (r: PayloadKind)
    ensures
        r@ == payload_of(t@),
{
    broadcast use group_route_views;

    match t {
        TypeExpr::Named(n) => {
            if str_eq(n.as_str(), "Unit") {
                PayloadKind::Unit
            } else {
                PayloadKind::Type(n.clone())
            }
        },
        TypeExpr::Mapping(fields) => {
            let ghost vs = type_fields_view(fields@);
            let mut out: Vec<(String, String)> = Vec::new();
            let mut i: usize = 0;
            while i < fields.len()
                invariant
                    i <= fields.len(),
                    payload_fields(vs, i as int, pairs_view(out@)) == payload_fields(
                        vs,
                        0,
                        Seq::empty(),
                    ),
                decreases fields.len() - i,
            {
                out.push((snake_case(fields[i].0.as_str()), type_expr_to_rust_simple(&fields[i].1)));
                i += 1;
            }
            PayloadKind::Mapping(out)
        },
        TypeExpr::List(inner) => {
            let mut text = owned("Vec<");
            push_simple_type(&mut text, inner);
            text.append(">");
            PayloadKind::List(text)
        },
        _ => PayloadKind::Unit,
    }
}

/// The variant of a route for a variant of a function: 200 is the status
/// of a success and 500 that of an error where the variant names none.
pub open spec fn route_variant(v: VariantView) -> RouteVariantView {
    match v.kind {
        VariantKindView::Success { type_expr, http_status, .. } => RouteVariantView {
            is_ok: true,
            tag: None,
            variant_name: "Ok"@,
            http_status: (match http_status {
                Some(n) => n,
                None => 200i64,
            }) as u16,
            payload_kind: payload_of(type_expr),
        },
        VariantKindView::Failure { tag, payload, http_status, .. } => RouteVariantView {
            is_ok: false,
            tag: Some(tag),
            variant_name: pascal(tag, true),
            http_status: (match http_status {
                Some(n) => n,
                None => 500i64,
            }) as u16,
            payload_kind: payload_of(payload),
        },
    }
}

pub open spec fn route_variants(vs: Seq<VariantView>, i: int, acc: Seq<RouteVariantView>) -> Seq<
    RouteVariantView,
>
    decreases left(vs.len(), i),
{
    if 0 <= i < vs.len() {
        route_variants(vs, i + 1, acc.push(route_variant(vs[i])))
    } else {
        acc
    }
}

fn low_bits(n: i64) -> (r: u16)
    ensures
        r == n as u16,
{
    #[verifier::truncate]
    (n as u16)
}

fn collect_variants(variants: &Vec<Variant>) -> (r: Vec<RouteVariant>)
    ensures
        route_variants_view(r@) == route_variants(variants_view(variants@), 0, Seq::empty()),
{
    broadcast use group_route_views;

    let ghost vs = variants_view(variants@);
    let mut out: Vec<RouteVariant> = Vec::new();
    let mut i: usize = 0;
    while i < variants.len()
        invariant
            i <= variants.len(),
            route_variants(vs, i as int, route_variants_view(out@)) == route_variants(
                vs,
                0,
                Seq::empty(),
            ),
        decreases variants.len() - i,
    {
        let rv = match &variants[i].kind {
            VariantKind::Success { type_expr, http_status, .. } => RouteVariant {
                is_ok: true,
                tag: None,
                variant_name: owned("Ok"),
                http_status: low_bits(
                    match http_status {
                        Some(n) => *n,
                        None => 200,
                    },
                ),
                payload_kind: type_expr_to_payload(type_expr),
            },
            VariantKind::Failure { tag, payload, http_status, .. } => RouteVariant {
                is_ok: false,
                tag: Some(tag.clone()),
                variant_name: pascal_case(tag.as_str()),
                http_status: low_bits(
                    match http_status {
                        Some(n) => *n,
                        None => 500,
                    },
                ),
                payload_kind: type_expr_to_payload(payload),
            },
        };
        out.push(rv);
        i += 1;
    }
    out
}

/// The kind of input that a form shows for a field: an email input for the
/// format `email`, a number for `Int`, a checkbox for `Bool`, else text.
pub open spec fn input_type(format: Option<Seq<char>>, t: TypeView) -> Seq<char> {
    if format == Some("email"@) {
        "email"@
    } else if t == TypeView::Named("Int"@) {
        "number"@
    } else if t == TypeView::Named("Bool"@) {
        "checkbox"@
    } else {
        "text"@
    }
}

fn input_type_of(format: &Option<String>, t: &TypeExpr) -> (r: String)
    ensures
        r@ == input_type(opt_str_view(*format), t@),
{
    let email = match format {
        Some(f) => str_eq(f.as_str(), "email"),
        None => false,
    };
    if email {
        owned("email")
    } else {
        match t {
            TypeExpr::Named(n) => {
                if str_eq(n.as_str(), "Int") {
                    owned("number")
                } else if str_eq(n.as_str(), "Bool") {
                    owned("checkbox")
                } else {
                    owned("text")
                }
            },
            _ => owned("text"),
        }
    }
}

/// The form fields of a type from `i` on: one for each field that is
/// neither generated nor immutable.
pub open spec fn type_form_fields(fields: Seq<FieldDefView>, i: int, acc: Seq<FormFieldView>) -> Seq<
    FormFieldView,
>
    decreases left(fields.len(), i),
{
    if 0 <= i < fields.len() {
        let f = fields[i];
        type_form_fields(
            fields,
            i + 1,
            if !f.generated && !f.immutable {
                acc.push(
                    FormFieldView {
                        name: snake(f.name),
                        label: title(f.name),
                        input_type: input_type(f.format, f.type_expr),
                        min_len: f.min_len,
                        max_len: f.max_len,
                        required: true,
                    },
                )
            } else {
                acc
            },
        )
    } else {
        acc
    }
}

/// The form fields of a type definition.
pub fn extract_form_fields(typedef: &TypeDef) -> (r: Vec<FormField>)
    ensures
        form_fields_view(r@) == type_form_fields(typedef@.fields, 0, Seq::empty()),
{
    broadcast use group_route_views;

    let ghost vs = typedef@.fields;
    let mut out: Vec<FormField> = Vec::new();
    let mut i: usize = 0;
    while i < typedef.fields.len()
        invariant
            i <= typedef.fields.len(),
            type_form_fields(vs, i as int, form_fields_view(out@)) == type_form_fields(
                vs,
                0,
                Seq::empty(),
            ),
        decreases typedef.fields.len() - i,
    {
        let f = &typedef.fields[i];
        if !f.generated && !f.immutable {
            out.push(
                FormField {
                    name: snake_case(f.name.as_str()),
                    label: title_case(f.name.as_str()),
                    input_type: input_type_of(&f.format, &f.type_expr),
                    min_len: f.min_len,
                    max_len: f.max_len,
                    required: true,
                },
            );
        }
        i += 1;
    }
    out
}

/// The first field named `name` from `i` on.
pub open spec fn first_field(fields: Seq<FieldDefView>, name: Seq<char>, i: int) -> Option<
    FieldDefView,
>
    decreases left(fields.len(), i),
{
    if 0 <= i < fields.len() {
        if fields[i].name == name {
            Some(fields[i])
        } else {
            first_field(fields, name, i + 1)
        }
    } else {
        None
    }
}

/// The field named `name` of the first type, from `i` on, that has one.
pub open spec fn domain_field(types: Seq<TypeDefView>, name: Seq<char>, i: int) -> Option<
    FieldDefView,
>
    decreases left(types.len(), i),
{
    if 0 <= i < types.len() {
        match first_field(types[i].fields, name, 0) {
            Some(f) => Some(f),
            None => domain_field(types, name, i + 1),
        }
    } else {
        None
    }
}

fn find_field<'a>(module: &'a Module, name: &str) -> (r: Option<&'a FieldDef>)
    ensures
        match r {
            Some(f) => domain_field(module@.types, name@, 0) == Some(f@),
            None => domain_field(module@.types, name@, 0).is_none(),
        },
{
    let ghost vs = module@.types;
    let mut i: usize = 0;
    while i < module.types.len()
        invariant
            i <= module.types.len(),
            domain_field(vs, name@, i as int) == domain_field(vs, name@, 0),
        decreases module.types.len() - i,
    {
        let ghost fs = fields_view(module.types[i as int].fields@);
        let mut j: usize = 0;
        while j < module.types[i].fields.len()
            invariant
                j <= module.types[i as int].fields.len(),
                first_field(fs, name@, j as int) == first_field(fs, name@, 0),
            decreases module.types[i as int].fields.len() - j,
        {
            if str_eq(module.types[i].fields[j].name.as_str(), name) {
                return Some(&module.types[i].fields[j]);
            }
            j += 1;
        }
        i += 1;
    }
    None
}

/// The form field for an entry of a map type; the lengths and the format
/// come from the field of that name in the domain types.
pub open spec fn map_form_field(name: Seq<char>, t: TypeView, types: Seq<TypeDefView>) -> FormFieldView {
    let f = domain_field(types, name, 0);
    FormFieldView {
        name: snake(name),
        label: title(name),
        input_type: input_type(
            match f {
                Some(x) => x.format,
                None => None,
            },
            t,
        ),
        min_len: match f {
            Some(x) => x.min_len,
            None => None,
        },
        max_len: match f {
            Some(x) => x.max_len,
            None => None,
        },
        required: true,
    }
}

pub open spec fn map_form_fields(
    fields: Seq<(Seq<char>, TypeView)>,
    i: int,
    types: Seq<TypeDefView>,
    acc: Seq<FormFieldView>,
) -> Seq<FormFieldView>
    decreases left(fields.len(), i),
{
    if 0 <= i < fields.len() {
        map_form_fields(
            fields,
            i + 1,
            types,
            acc.push(map_form_field(fields[i].0, fields[i].1, types)),
        )
    } else {
        acc
    }
}

fn extract_form_fields_from_map(fields: &Vec<(String, TypeExpr)>, module: &Module) -> (r: Vec<
    FormField,
>)
    ensures
        form_fields_view(r@) == map_form_fields(
            type_fields_view(fields@),
            0,
            module@.types,
            Seq::empty(),
        ),
{
    broadcast use group_route_views;

    let ghost vs = type_fields_view(fields@);
    let mut out: Vec<FormField> = Vec::new();
    let mut i: usize = 0;
    while i < fields.len()
        invariant
            i <= fields.len(),
            map_form_fields(vs, i as int, module@.types, form_fields_view(out@)) == map_form_fields(
                vs,
                0,
                module@.types,
                Seq::empty(),
            ),
        decreases fields.len() - i,
    {
        let name = fields[i].0.as_str();
        let found = find_field(module, name);
        let none: Option<String> = None;
        let ff = match found {
            Some(f) => FormField {
                name: snake_case(name),
                label: title_case(name),
                input_type: input_type_of(&f.format, &fields[i].1),
                min_len: f.min_len,
                max_len: f.max_len,
                required: true,
            },
            None => FormField {
                name: snake_case(name),
                label: title_case(name),
                input_type: input_type_of(&none, &fields[i].1),
                min_len: None,
                max_len: None,
                required: true,
            },
        };
        out.push(ff);
        i += 1;
    }
    out
}

/// The fields of the first map-typed parameter from `i` on.
pub open spec fn map_param(params: Seq<ParamDefView>, i: int) -> Option<Seq<(Seq<char>, TypeView)>>
    decreases left(params.len(), i),
{
    if 0 <= i < params.len() {
        match params[i].type_expr {
            TypeView::Mapping(fields) => Some(fields),
            _ => map_param(params, i + 1),
        }
    } else {
        None
    }
}

/// Whether one of the first `n` parameters is a UUID taken from the path.
pub open spec fn has_id_param(params: Seq<ParamDefView>, n: int) -> bool
    decreases n,
{
    if n <= 0 || n > params.len() {
        false
    } else {
        (params[n - 1].type_expr == TypeView::Named("UUID"@) && params[n - 1].source == Some(
            "http-path-param"@,
        )) || has_id_param(params, n - 1)
    }
}

/// What a route knows of the function `f`.
pub open spec fn fn_route(f: FnDefView) -> FnRouteView {
    FnRouteView {
        fn_name: snake(f.name),
        result_enum: pascal(f.name, true) + "Result"@,
        input_struct: if map_param(f.params, 0).is_some() {
            Some(pascal(f.name, true) + "Input"@)
        } else {
            None
        },
        variants: route_variants(f.returns.variants, 0, Seq::empty()),
    }
}

/// The route that creates through `f` in `store`.
pub open spec fn create_route(f: FnDefView, store: StoreInfoView, m: ModuleView) -> RouteView {
    RouteView {
        kind: RouteKind::Create,
        method: HttpMethod::Post,
        path: "/"@ + store.plural,
        api_path: Some("/api/"@ + store.plural),
        handler_name: "create_"@ + store.singular + "_handler"@,
        api_handler_name: Some("api_create_"@ + store.singular),
        function: Some(fn_route(f)),
        store_type: store.ty_name,
        form_fields: match map_param(f.params, 0) {
            Some(fields) => map_form_fields(fields, 0, m.types, Seq::empty()),
            None => Seq::empty(),
        },
    }
}

/// The route that shows through `f` from `store`.
pub open spec fn show_route(f: FnDefView, store: StoreInfoView) -> RouteView {
    RouteView {
        kind: RouteKind::Show,
        method: HttpMethod::Get,
        path: "/"@ + store.plural + "/{id}"@,
        api_path: Some("/api/"@ + store.plural + "/{id}"@),
        handler_name: "show_"@ + store.singular,
        api_handler_name: Some("api_get_"@ + store.singular),
        function: Some(fn_route(f)),
        store_type: store.ty_name,
        form_fields: Seq::empty(),
    }
}

/// The route of a function, if it has one: a function that writes and has
/// a map-typed parameter creates; any other function that takes a UUID from
/// the path shows. Either way the function must have a store.
pub open spec fn function_route(f: FnDefView, m: ModuleView, stores: Seq<StoreInfoView>) -> Option<
    RouteView,
> {
    let k = fn_store_at(stores, m.effect_sets, f.effects, 0);
    if has_writes(m.effect_sets, f.effects, f.effects.len() as int) && map_param(
        f.params,
        0,
    ).is_some() {
        if 0 <= k < stores.len() {
            Some(create_route(f, stores[k], m))
        } else {
            None
        }
    } else if has_id_param(f.params, f.params.len() as int) && 0 <= k < stores.len() {
        Some(show_route(f, stores[k]))
    } else {
        None
    }
}

/// The first type named `name` from `i` on.
pub open spec fn first_type(types: Seq<TypeDefView>, name: Seq<char>, i: int) -> Option<TypeDefView>
    decreases left(types.len(), i),
{
    if 0 <= i < types.len() {
        if types[i].name == name {
            Some(types[i])
        } else {
            first_type(types, name, i + 1)
        }
    } else {
        None
    }
}

/// The route that lists a store.
pub open spec fn list_route(store: StoreInfoView) -> RouteView {
    RouteView {
        kind: RouteKind::List,
        method: HttpMethod::Get,
        path: "/"@ + store.plural,
        api_path: Some("/api/"@ + store.plural),
        handler_name: "list_"@ + store.plural,
        api_handler_name: Some("api_list_"@ + store.plural),
        function: None,
        store_type: store.ty_name,
        form_fields: Seq::empty(),
    }
}

/// The route that shows the form for a new item of a store; its fields are
/// those of the type of the store's name, where the module declares it.
pub open spec fn new_form_route(store: StoreInfoView, m: ModuleView) -> RouteView {
    RouteView {
        kind: RouteKind::NewForm,
        method: HttpMethod::Get,
        path: "/"@ + store.plural + "/new"@,
        api_path: None,
        handler_name: "new_"@ + store.singular + "_form"@,
        api_handler_name: None,
        function: None,
        store_type: store.ty_name,
        form_fields: match first_type(m.types, store.ty_name, 0) {
            Some(t) => type_form_fields(t.fields, 0, Seq::empty()),
            None => Seq::empty(),
        },
    }
}

/// The route that deletes an item of a store.
pub open spec fn delete_route(store: StoreInfoView) -> RouteView {
    RouteView {
        kind: RouteKind::Delete,
        method: HttpMethod::Post,
        path: "/"@ + store.plural + "/{id}/delete"@,
        api_path: None,
        handler_name: "delete_"@ + store.singular,
        api_handler_name: None,
        function: None,
        store_type: store.ty_name,
        form_fields: Seq::empty(),
    }
}

/// The implicit routes of the stores from `i` on, three for each store.
pub open spec fn implicit_routes(
    stores: Seq<StoreInfoView>,
    i: int,
    m: ModuleView,
    acc: Seq<RouteView>,
) -> Seq<RouteView>
    decreases left(stores.len(), i),
{
    if 0 <= i < stores.len() {
        implicit_routes(
            stores,
            i + 1,
            m,
            acc.push(list_route(stores[i])).push(new_form_route(stores[i], m)).push(
                delete_route(stores[i]),
            ),
        )
    } else {
        acc
    }
}

/// The routes of the functions from `i` on.
pub open spec fn function_routes(
    m: ModuleView,
    stores: Seq<StoreInfoView>,
    i: int,
    acc: Seq<RouteView>,
) -> Seq<RouteView>
    decreases left(m.functions.len(), i),
{
    if 0 <= i < m.functions.len() {
        function_routes(
            m,
            stores,
            i + 1,
            match function_route(m.functions[i], m, stores) {
                Some(r) => acc.push(r),
                None => acc,
            },
        )
    } else {
        acc
    }
}

/// The route table of a module: the implicit routes of every store, then
/// the routes of the functions.
pub open spec fn analyze_spec(m: ModuleView) -> RouteTableView {
    let stores = stores_of(m);
    RouteTableView {
        module_name: replaced(m.name, '-', '_'),
        store_types: stores,
        routes: function_routes(m, stores, 0, implicit_routes(stores, 0, m, Seq::empty())),
    }
}


fn find_map_param(params: &Vec<ParamDef>) -> (r: Option<&Vec<(String, TypeExpr)>>)
    ensures
        match r {
            Some(fields) => map_param(params_view(params@), 0) == Some(type_fields_view(fields@)),
            None => map_param(params_view(params@), 0).is_none(),
        },
{
    let ghost vs = params_view(params@);
    let mut i: usize = 0;
    while i < params.len()
        invariant
            i <= params.len(),
            map_param(vs, i as int) == map_param(vs, 0),
        decreases params.len() - i,
    {
        if let TypeExpr::Mapping(fields) = &params[i].type_expr {
            return Some(fields);
        }
        i += 1;
    }
    None
}

fn has_uuid_path_param(params: &Vec<ParamDef>) -> (r: bool)
    ensures
        r == has_id_param(params_view(params@), params@.len() as int),
{
    let ghost vs = params_view(params@);
    let mut found = false;
    let mut i: usize = 0;
    while i < params.len()
        invariant
            i <= params.len(),
            found == has_id_param(vs, i as int),
        decreases params.len() - i,
    {
        let uuid = match &params[i].type_expr {
            TypeExpr::Named(n) => str_eq(n.as_str(), "UUID"),
            _ => false,
        };
        let from_path = match &params[i].source {
            Some(s) => str_eq(s.as_str(), "http-path-param"),
            None => false,
        };
        if uuid && from_path {
            found = true;
        }
        i += 1;
    }
    found
}

fn concat2(a: &str, b: &str) -> (r: String)
    ensures
        r@ == a@ + b@,
{
    let mut r = owned(a);
    r.append(b);
    r
}

fn concat3(a: &str, b: &str, c: &str) -> (r: String)
    ensures
        r@ == a@ + b@ + c@,
{
    let mut r = owned(a);
    r.append(b);
    r.append(c);
    r
}

fn make_fn_route(func: &FnDef) -> (r: FnRoute)
    ensures
        r@ == fn_route(func@),
{
    let base = pascal_case(func.name.as_str());
    let input_struct = match find_map_param(&func.params) {
        Some(_) => Some(concat2(base.as_str(), "Input")),
        None => None,
    };
    FnRoute {
        fn_name: snake_case(func.name.as_str()),
        result_enum: concat2(base.as_str(), "Result"),
        input_struct,
        variants: collect_variants(&func.returns.variants),
    }
}

/// The route of a function, if it has one.
fn analyze_function(func: &FnDef, module: &Module, stores: &Vec<StoreInfo>) -> (r: Option<Route>)
    ensures
        match r {
            Some(route) => function_route(func@, module@, store_infos_view(stores@)) == Some(
                route@,
            ),
            None => function_route(func@, module@, store_infos_view(stores@)).is_none(),
        },
{
    broadcast use group_route_views;

    let writes = func_has_writes(func, module);
    let map_fields = find_map_param(&func.params);
    let store = find_fn_store_type(func, module, stores);
    if writes && map_fields.is_some() {
        match store {
            Some(k) => {
                let st = &stores[k];
                let form_fields = match map_fields {
                    Some(fields) => extract_form_fields_from_map(fields, module),
                    None => Vec::new(),
                };
                Some(
                    Route {
                        kind: RouteKind::Create,
                        method: HttpMethod::Post,
                        path: concat2("/", st.plural.as_str()),
                        api_path: Some(concat2("/api/", st.plural.as_str())),
                        handler_name: concat3("create_", st.singular.as_str(), "_handler"),
                        api_handler_name: Some(concat2("api_create_", st.singular.as_str())),
                        function: Some(make_fn_route(func)),
                        store_type: st.ty_name.clone(),
                        form_fields,
                    },
                )
            },
            None => None,
        }
    } else if has_uuid_path_param(&func.params) {
        match store {
            Some(k) => {
                let st = &stores[k];
                Some(
                    Route {
                        kind: RouteKind::Show,
                        method: HttpMethod::Get,
                        path: concat3("/", st.plural.as_str(), "/{id}"),
                        api_path: Some(concat3("/api/", st.plural.as_str(), "/{id}")),
                        handler_name: concat2("show_", st.singular.as_str()),
                        api_handler_name: Some(concat2("api_get_", st.singular.as_str())),
                        function: Some(make_fn_route(func)),
                        store_type: st.ty_name.clone(),
                        form_fields: Vec::new(),
                    },
                )
            },
            None => None,
        }
    } else {
        None
    }
}

fn find_type<'a>(types: &'a Vec<TypeDef>, name: &str) -> (r: Option<&'a TypeDef>)
    ensures
        match r {
            Some(t) => first_type(typedefs_view(types@), name@, 0) == Some(t@),
            None => first_type(typedefs_view(types@), name@, 0).is_none(),
        },
{
    let ghost vs = typedefs_view(types@);
    let mut i: usize = 0;
    while i < types.len()
        invariant
            i <= types.len(),
            first_type(vs, name@, i as int) == first_type(vs, name@, 0),
        decreases types.len() - i,
    {
        if str_eq(types[i].name.as_str(), name) {
            return Some(&types[i]);
        }
        i += 1;
    }
    None
}

/// Analyzes a module and produces its route table.
pub fn analyze(module: &Module) -> (table: RouteTable)
    ensures
        table@ == analyze_spec(module@),
{
    broadcast use group_route_views;

    let module_name = replace_char(module.name.as_str(), '-', '_');
    let store_types = collect_store_types(module);
    let ghost stores = store_infos_view(store_types@);
    let ghost m = module@;
    let mut routes: Vec<Route> = Vec::new();
    let mut i: usize = 0;
    while i < store_types.len()
        invariant
            i <= store_types.len(),
            implicit_routes(stores, i as int, m, routes_view(routes@)) == implicit_routes(
                stores,
                0,
                m,
                Seq::empty(),
            ),
        decreases store_types.len() - i,
    {
        let store = &store_types[i];
        routes.push(
            Route {
                kind: RouteKind::List,
                method: HttpMethod::Get,
                path: concat2("/", store.plural.as_str()),
                api_path: Some(concat2("/api/", store.plural.as_str())),
                handler_name: concat2("list_", store.plural.as_str()),
                api_handler_name: Some(concat2("api_list_", store.plural.as_str())),
                function: None,
                store_type: store.ty_name.clone(),
                form_fields: Vec::new(),
            },
        );
        let form_fields = match find_type(&module.types, store.ty_name.as_str()) {
            Some(t) => extract_form_fields(t),
            None => Vec::new(),
        };
        routes.push(
            Route {
                kind: RouteKind::NewForm,
                method: HttpMethod::Get,
                path: concat3("/", store.plural.as_str(), "/new"),
                api_path: None,
                handler_name: concat3("new_", store.singular.as_str(), "_form"),
                api_handler_name: None,
                function: None,
                store_type: store.ty_name.clone(),
                form_fields,
            },
        );
        routes.push(
            Route {
                kind: RouteKind::Delete,
                method: HttpMethod::Post,
                path: concat3("/", store.plural.as_str(), "/{id}/delete"),
                api_path: None,
                handler_name: concat2("delete_", store.singular.as_str()),
                api_handler_name: None,
                function: None,
                store_type: store.ty_name.clone(),
                form_fields: Vec::new(),
            },
        );
        i += 1;
    }
    let ghost start = routes_view(routes@);
    let mut i: usize = 0;
    while i < module.functions.len()
        invariant
            i <= module.functions.len(),
            function_routes(m, stores, i as int, routes_view(routes@)) == function_routes(
                m,
                stores,
                0,
                start,
            ),
        decreases module.functions.len() - i,
    {
        if let Some(route) = analyze_function(&module.functions[i], module, &store_types) {
            routes.push(route);
        }
        i += 1;
    }
    RouteTable { module_name, store_types, routes }
}

/// Whether `r` is among the first `n` routes.
pub open spec fn has_route(routes: Seq<RouteView>, r: RouteView, n: int) -> bool
    decreases n,
{
    if n <= 0 || n > routes.len() {
        false
    } else {
        routes[n - 1] == r || has_route(routes, r, n - 1)
    }
}

proof fn lemma_has_route_index(routes: Seq<RouteView>, r: RouteView, k: int)
    requires
        0 <= k < routes.len(),
        routes[k] == r,
    ensures
        has_route(routes, r, routes.len() as int),
{
    lemma_has_route_upto(routes, r, k, routes.len() as int);
}

proof fn lemma_has_route_upto(routes: Seq<RouteView>, r: RouteView, k: int, n: int)
    requires
        0 <= k < n <= routes.len(),
        routes[k] == r,
    ensures
        has_route(routes, r, n),
    decreases n - k,
{
    if k + 1 < n {
        lemma_has_route_upto(routes, r, k, n - 1);
    }
}

proof fn lemma_function_routes_keep(
    m: ModuleView,
    stores: Seq<StoreInfoView>,
    i: int,
    acc: Seq<RouteView>,
    k: int,
)
    requires
        0 <= i,
        0 <= k < acc.len(),
    ensures
        function_routes(m, stores, i, acc).len() >= acc.len(),
        function_routes(m, stores, i, acc)[k] == acc[k],
    decreases left(m.functions.len(), i),
{
    if i < m.functions.len() {
        let next = match function_route(m.functions[i], m, stores) {
            Some(r) => acc.push(r),
            None => acc,
        };
        lemma_function_routes_keep(m, stores, i + 1, next, k);
    }
}

proof fn lemma_implicit_routes_hold(
    stores: Seq<StoreInfoView>,
    i: int,
    m: ModuleView,
    acc: Seq<RouteView>,
    k: int,
)
    requires
        0 <= i <= k < stores.len(),
    ensures
        implicit_routes(stores, i, m, acc).len() >= acc.len() + 3 * (k - i) + 3,
        implicit_routes(stores, i, m, acc)[acc.len() + 3 * (k - i)] == list_route(stores[k]),
        implicit_routes(stores, i, m, acc)[acc.len() + 3 * (k - i) + 1] == new_form_route(
            stores[k],
            m,
        ),
        implicit_routes(stores, i, m, acc)[acc.len() + 3 * (k - i) + 2] == delete_route(stores[k]),
    decreases k - i,
{
    let next = acc.push(list_route(stores[i])).push(new_form_route(stores[i], m)).push(
        delete_route(stores[i]),
    );
    if i < k {
        lemma_implicit_routes_hold(stores, i + 1, m, next, k);
    } else {
        lemma_implicit_routes_keep(stores, i + 1, m, next, acc.len() as int);
        lemma_implicit_routes_keep(stores, i + 1, m, next, acc.len() as int + 1);
        lemma_implicit_routes_keep(stores, i + 1, m, next, acc.len() as int + 2);
    }
}

proof fn lemma_implicit_routes_keep(
    stores: Seq<StoreInfoView>,
    i: int,
    m: ModuleView,
    acc: Seq<RouteView>,
    k: int,
)
    requires
        0 <= i,
        0 <= k < acc.len(),
    ensures
        implicit_routes(stores, i, m, acc).len() >= acc.len(),
        implicit_routes(stores, i, m, acc)[k] == acc[k],
    decreases left(stores.len(), i),
{
    if i < stores.len() {
        let next = acc.push(list_route(stores[i])).push(new_form_route(stores[i], m)).push(
            delete_route(stores[i]),
        );
        lemma_implicit_routes_keep(stores, i + 1, m, next, k);
    }
}

/// Route derivation: for every store of the table, the table holds the
/// route that lists the store (`GET /p`), the route of the form for a new
/// item (`GET /p/new`) and the route that deletes an item
/// (`POST /p/{id}/delete`), where `p` is the plural of the store.
pub proof fn lemma_route_derivation(m: ModuleView, k: int)
    requires
        0 <= k < analyze_spec(m).store_types.len(),
    ensures
        ({
            let t = analyze_spec(m);
            let store = t.store_types[k];
            &&& has_route(t.routes, list_route(store), t.routes.len() as int)
            &&& has_route(t.routes, new_form_route(store, m), t.routes.len() as int)
            &&& has_route(t.routes, delete_route(store), t.routes.len() as int)
            &&& list_route(store).method == HttpMethod::Get && list_route(store).path == "/"@
                + store.plural
            &&& new_form_route(store, m).method == HttpMethod::Get && new_form_route(
                store,
                m,
            ).path == "/"@ + store.plural + "/new"@
            &&& delete_route(store).method == HttpMethod::Post && delete_route(store).path == "/"@
                + store.plural + "/{id}/delete"@
        }),
{
    let t = analyze_spec(m);
    let stores = t.store_types;
    let implicit = implicit_routes(stores, 0, m, Seq::empty());
    lemma_implicit_routes_hold(stores, 0, m, Seq::empty(), k);
    lemma_function_routes_keep(m, stores, 0, implicit, 3 * k);
    lemma_function_routes_keep(m, stores, 0, implicit, 3 * k + 1);
    lemma_function_routes_keep(m, stores, 0, implicit, 3 * k + 2);
    lemma_has_route_index(t.routes, list_route(stores[k]), 3 * k);
    lemma_has_route_index(t.routes, new_form_route(stores[k], m), 3 * k + 1);
    lemma_has_route_index(t.routes, delete_route(stores[k]), 3 * k + 2);
}


/// Whether the table of stores holds the store of type `t`.
pub open spec fn has_store(stores: Seq<StoreInfoView>, t: Seq<char>) -> bool {
    store_at(stores, t, 0) >= 0
}

proof fn lemma_store_at_same_names(a: Seq<StoreInfoView>, b: Seq<StoreInfoView>, t: Seq<char>, i: int)
    requires
        0 <= i,
        a.len() == b.len(),
        forall|k: int| 0 <= k < a.len() ==> (#[trigger] a[k]).ty_name == b[k].ty_name,
    ensures
        store_at(a, t, i) == store_at(b, t, i),
    decreases left(a.len(), i),
{
    if i < a.len() {
        assert(a[i].ty_name == b[i].ty_name);
        if a[i].ty_name != t {
            lemma_store_at_same_names(a, b, t, i + 1);
        }
    }
}

proof fn lemma_store_at_push(stores: Seq<StoreInfoView>, x: StoreInfoView, t: Seq<char>, i: int)
    requires
        0 <= i <= stores.len(),
    ensures
        store_at(stores, t, i) >= 0 ==> store_at(stores.push(x), t, i) == store_at(stores, t, i),
        x.ty_name == t ==> store_at(stores.push(x), t, i) >= 0,
    decreases left(stores.len(), i),
{
    if i < stores.len() {
        assert(stores.push(x)[i] == stores[i]);
        if stores[i].ty_name != t {
            lemma_store_at_push(stores, x, t, i + 1);
        }
    } else {
        assert(stores.push(x)[i] == x);
    }
}

proof fn lemma_with_store(stores: Seq<StoreInfoView>, t: Seq<char>, write: bool, x: Seq<char>)
    ensures
        has_store(with_store(stores, t, write), t),
        has_store(stores, x) ==> has_store(with_store(stores, t, write), x),
{
    let k = store_at(stores, t, 0);
    lemma_store_at_bounds(stores, t, 0);
    if 0 <= k < stores.len() {
        if write {
            let updated = stores.update(k, StoreInfoView { needs_mut: true, ..stores[k] });
            lemma_store_at_same_names(stores, updated, t, 0);
            lemma_store_at_same_names(stores, updated, x, 0);
        }
    } else {
        lemma_store_at_push(stores, new_store(t, write), t, 0);
        lemma_store_at_push(stores, new_store(t, write), x, 0);
    }
}

proof fn lemma_effect_stores_keep(
    stores: Seq<StoreInfoView>,
    effects: Seq<EffectView>,
    j: int,
    x: Seq<char>,
)
    requires
        0 <= j,
        has_store(stores, x),
    ensures
        has_store(effect_stores(stores, effects, j), x),
    decreases left(effects.len(), j),
{
    if j < effects.len() {
        let next = if effects[j].kind is Sends {
            stores
        } else {
            with_store(stores, store_type(effects[j].target), effects[j].kind is Writes)
        };
        lemma_with_store(stores, store_type(effects[j].target), effects[j].kind is Writes, x);
        lemma_effect_stores_keep(next, effects, j + 1, x);
    }
}

proof fn lemma_effect_stores_cover(
    stores: Seq<StoreInfoView>,
    effects: Seq<EffectView>,
    j: int,
    k: int,
)
    requires
        0 <= j <= k < effects.len(),
        !(effects[k].kind is Sends),
    ensures
        has_store(effect_stores(stores, effects, j), store_type(effects[k].target)),
    decreases k - j,
{
    let t = store_type(effects[j].target);
    let next = if effects[j].kind is Sends {
        stores
    } else {
        with_store(stores, t, effects[j].kind is Writes)
    };
    if j < k {
        lemma_effect_stores_cover(next, effects, j + 1, k);
    } else {
        lemma_with_store(stores, t, effects[j].kind is Writes, t);
        lemma_effect_stores_keep(next, effects, j + 1, t);
    }
}

proof fn lemma_module_stores_keep(
    stores: Seq<StoreInfoView>,
    sets: Seq<EffectSetView>,
    i: int,
    x: Seq<char>,
)
    requires
        0 <= i,
        has_store(stores, x),
    ensures
        has_store(module_stores(stores, sets, i), x),
    decreases left(sets.len(), i),
{
    if i < sets.len() {
        lemma_effect_stores_keep(stores, sets[i].effects, 0, x);
        lemma_module_stores_keep(effect_stores(stores, sets[i].effects, 0), sets, i + 1, x);
    }
}

proof fn lemma_module_stores_cover(
    stores: Seq<StoreInfoView>,
    sets: Seq<EffectSetView>,
    i: int,
    n: int,
    k: int,
)
    requires
        0 <= i <= n < sets.len(),
        0 <= k < sets[n].effects.len(),
        !(sets[n].effects[k].kind is Sends),
    ensures
        has_store(module_stores(stores, sets, i), store_type(sets[n].effects[k].target)),
    decreases n - i,
{
    let next = effect_stores(stores, sets[i].effects, 0);
    if i < n {
        lemma_module_stores_cover(next, sets, i + 1, n, k);
    } else {
        lemma_effect_stores_cover(stores, sets[i].effects, 0, k);
        lemma_module_stores_keep(next, sets, i + 1, store_type(sets[n].effects[k].target));
    }
}

/// Every store that an effect of the module reads or writes is a store of
/// the route table, so that `lemma_route_derivation` gives it its three
/// implicit routes.
pub proof fn lemma_stores_cover_effects(m: ModuleView, n: int, k: int)
    requires
        0 <= n < m.effect_sets.len(),
        0 <= k < m.effect_sets[n].effects.len(),
        !(m.effect_sets[n].effects[k].kind is Sends),
    ensures
        ({
            let t = store_type(m.effect_sets[n].effects[k].target);
            let stores = analyze_spec(m).store_types;
            &&& has_store(stores, t)
            &&& 0 <= store_at(stores, t, 0) < stores.len()
            &&& stores[store_at(stores, t, 0)].ty_name == t
        }),
{
    lemma_module_stores_cover(Seq::empty(), m.effect_sets, 0, n, k);
    lemma_store_at_bounds(
        analyze_spec(m).store_types,
        store_type(m.effect_sets[n].effects[k].target),
        0,
    );
}

/// Whether the stores have names that differ from one another, and each
/// has the lower-case form of its name as its singular and that form
/// followed by `s` as its plural.
pub open spec fn sound_stores(stores: Seq<StoreInfoView>) -> bool {
    &&& forall|i: int, j: int|
        0 <= i < j < stores.len() ==> (#[trigger] stores[i]).ty_name != (#[trigger] stores[j]).ty_name
    &&& forall|i: int|
        0 <= i < stores.len() ==> (#[trigger] stores[i]).plural == plural_of(
            lower_text(stores[i].ty_name),
        ) && stores[i].singular == lower_text(stores[i].ty_name)
}

proof fn lemma_store_at_none(stores: Seq<StoreInfoView>, t: Seq<char>, i: int)
    requires
        0 <= i,
        store_at(stores, t, i) < 0,
    ensures
        forall|k: int| i <= k < stores.len() ==> (#[trigger] stores[k]).ty_name != t,
    decreases left(stores.len(), i),
{
    if i < stores.len() {
        lemma_store_at_none(stores, t, i + 1);
    }
}

proof fn lemma_with_store_sound(stores: Seq<StoreInfoView>, t: Seq<char>, write: bool)
    requires
        sound_stores(stores),
    ensures
        sound_stores(with_store(stores, t, write)),
{
    let k = store_at(stores, t, 0);
    let next = with_store(stores, t, write);
    lemma_store_at_bounds(stores, t, 0);
    if 0 <= k < stores.len() {
        assert forall|i: int| 0 <= i < next.len() implies (#[trigger] next[i]).ty_name
            == stores[i].ty_name && next[i].plural == stores[i].plural && next[i].singular
            == stores[i].singular by {}
        assert forall|i: int, j: int| 0 <= i < j < next.len() implies (#[trigger] next[i]).ty_name != (
        #[trigger] next[j]).ty_name by {
            assert(stores[i].ty_name != stores[j].ty_name);
        }
        assert forall|i: int| 0 <= i < next.len() implies (#[trigger] next[i]).plural == plural_of(
            lower_text(next[i].ty_name),
        ) && next[i].singular == lower_text(next[i].ty_name) by {
            assert(stores[i].plural == plural_of(lower_text(stores[i].ty_name)));
        }
    } else {
        lemma_store_at_none(stores, t, 0);
        assert forall|i: int, j: int| 0 <= i < j < next.len() implies (#[trigger] next[i]).ty_name != (
        #[trigger] next[j]).ty_name by {
            if j < stores.len() {
                assert(stores[i].ty_name != stores[j].ty_name);
            } else {
                assert(stores[i].ty_name != t);
            }
        }
        assert forall|i: int| 0 <= i < next.len() implies (#[trigger] next[i]).plural == plural_of(
            lower_text(next[i].ty_name),
        ) && next[i].singular == lower_text(next[i].ty_name) by {
            if i < stores.len() {
                assert(stores[i].plural == plural_of(lower_text(stores[i].ty_name)));
            }
        }
    }
}

proof fn lemma_effect_stores_sound(stores: Seq<StoreInfoView>, effects: Seq<EffectView>, j: int)
    requires
        0 <= j,
        sound_stores(stores),
    ensures
        sound_stores(effect_stores(stores, effects, j)),
    decreases left(effects.len(), j),
{
    if j < effects.len() {
        if effects[j].kind is Sends {
            lemma_effect_stores_sound(stores, effects, j + 1);
        } else {
            let t = store_type(effects[j].target);
            lemma_with_store_sound(stores, t, effects[j].kind is Writes);
            lemma_effect_stores_sound(
                with_store(stores, t, effects[j].kind is Writes),
                effects,
                j + 1,
            );
        }
    }
}

proof fn lemma_module_stores_sound(stores: Seq<StoreInfoView>, sets: Seq<EffectSetView>, i: int)
    requires
        0 <= i,
        sound_stores(stores),
    ensures
        sound_stores(module_stores(stores, sets, i)),
    decreases left(sets.len(), i),
{
    if i < sets.len() {
        lemma_effect_stores_sound(stores, sets[i].effects, 0);
        lemma_module_stores_sound(effect_stores(stores, sets[i].effects, 0), sets, i + 1);
    }
}

proof fn lemma_implicit_routes_len(stores: Seq<StoreInfoView>, i: int, m: ModuleView, acc: Seq<RouteView>)
    requires
        0 <= i <= stores.len(),
    ensures
        implicit_routes(stores, i, m, acc).len() == acc.len() + 3 * (stores.len() - i),
    decreases stores.len() - i,
{
    if i < stores.len() {
        let next = acc.push(list_route(stores[i])).push(new_form_route(stores[i], m)).push(
            delete_route(stores[i]),
        );
        lemma_implicit_routes_len(stores, i + 1, m, next);
    }
}

proof fn lemma_function_routes_kinds(
    m: ModuleView,
    stores: Seq<StoreInfoView>,
    i: int,
    acc: Seq<RouteView>,
    base: int,
)
    requires
        0 <= i,
        0 <= base <= acc.len(),
        forall|j: int|
            base <= j < acc.len() ==> (#[trigger] acc[j]).kind is Create || acc[j].kind is Show,
    ensures
        forall|j: int|
            base <= j < function_routes(m, stores, i, acc).len() ==> (#[trigger] function_routes(
                m,
                stores,
                i,
                acc,
            )[j]).kind is Create || function_routes(m, stores, i, acc)[j].kind is Show,
    decreases left(m.functions.len(), i),
{
    if i < m.functions.len() {
        let next = match function_route(m.functions[i], m, stores) {
            Some(r) => acc.push(r),
            None => acc,
        };
        assert forall|j: int| base <= j < next.len() implies (#[trigger] next[j]).kind is Create
            || next[j].kind is Show by {
            if j < acc.len() {
                assert(next[j] == acc[j]);
            }
        }
        lemma_function_routes_kinds(m, stores, i + 1, next, base);
    }
}

/// Whether a route stands in a table exactly once.
pub open spec fn once(routes: Seq<RouteView>, r: RouteView) -> bool {
    &&& has_route(routes, r, routes.len() as int)
    &&& forall|i: int, j: int|
        0 <= i < routes.len() && 0 <= j < routes.len() && #[trigger] routes[i] == r
            && #[trigger] routes[j] == r ==> i == j
}

/// The stores of a table differ in their names, and the plural of each is
/// the lower-case form of its name followed by `s`.
pub proof fn lemma_stores_sound(m: ModuleView)
    ensures
        sound_stores(analyze_spec(m).store_types),
{
    assert(sound_stores(Seq::<StoreInfoView>::empty()));
    lemma_module_stores_sound(Seq::empty(), m.effect_sets, 0);
}

/// Each implicit route of a store stands in the table exactly once: the
/// route that lists the store, the route of the form for a new item and
/// the route that deletes an item, each with the name of the store as its
/// store type.
pub proof fn lemma_routes_once(m: ModuleView, k: int)
    requires
        0 <= k < analyze_spec(m).store_types.len(),
    ensures
        ({
            let t = analyze_spec(m);
            let store = t.store_types[k];
            &&& once(t.routes, list_route(store))
            &&& once(t.routes, new_form_route(store, m))
            &&& once(t.routes, delete_route(store))
            &&& list_route(store).kind is List && list_route(store).store_type == store.ty_name
            &&& new_form_route(store, m).kind is NewForm && new_form_route(store, m).store_type
                == store.ty_name
            &&& delete_route(store).kind is Delete && delete_route(store).store_type
                == store.ty_name
            &&& store.plural == plural_of(lower_text(store.ty_name))
        }),
{
    let t = analyze_spec(m);
    let stores = t.store_types;
    let n = stores.len() as int;
    let implicit = implicit_routes(stores, 0, m, Seq::empty());
    let routes = t.routes;
    lemma_stores_sound(m);
    lemma_route_derivation(m, k);
    lemma_implicit_routes_len(stores, 0, m, Seq::empty());
    lemma_function_routes_kinds(m, stores, 0, implicit, 3 * n);
    // what stands at each place of the table
    assert forall|j: int| 0 <= j < routes.len() implies (j >= 3 * n ==> (#[trigger] routes[j]).kind
        is Create || routes[j].kind is Show) && (j < 3 * n ==> {
        let i = j / 3;
        &&& 0 <= i < n
        &&& (j % 3 == 0 ==> routes[j] == list_route(stores[i]))
        &&& (j % 3 == 1 ==> routes[j] == new_form_route(stores[i], m))
        &&& (j % 3 == 2 ==> routes[j] == delete_route(stores[i]))
    }) by {
        if j < 3 * n {
            let i = j / 3;
            lemma_implicit_routes_hold(stores, 0, m, Seq::empty(), i);
            lemma_function_routes_keep(m, stores, 0, implicit, j);
        }
    }
    let store = stores[k];
    let a = list_route(store);
    let b = new_form_route(store, m);
    let c = delete_route(store);
    assert forall|i: int, j: int|
        0 <= i < routes.len() && 0 <= j < routes.len() && #[trigger] routes[i] == a
            && #[trigger] routes[j] == a implies i == j by {
        lemma_place_of(stores, n, i, k, 0);
        lemma_place_of(stores, n, j, k, 0);
    }
    assert forall|i: int, j: int|
        0 <= i < routes.len() && 0 <= j < routes.len() && #[trigger] routes[i] == b
            && #[trigger] routes[j] == b implies i == j by {
        lemma_place_of(stores, n, i, k, 1);
        lemma_place_of(stores, n, j, k, 1);
    }
    assert forall|i: int, j: int|
        0 <= i < routes.len() && 0 <= j < routes.len() && #[trigger] routes[i] == c
            && #[trigger] routes[j] == c implies i == j by {
        lemma_place_of(stores, n, i, k, 2);
        lemma_place_of(stores, n, j, k, 2);
    }
}

/// Where the names of the stores differ, a place below `3 * n` whose store
/// has the name of the store `k` and whose rest by three is `c` is the place
/// `3 * k + c`.
proof fn lemma_place_of(stores: Seq<StoreInfoView>, n: int, j: int, k: int, c: int)
    requires
        sound_stores(stores),
        n == stores.len(),
        0 <= k < n,
        0 <= c < 3,
    ensures
        0 <= j < 3 * n && j % 3 == c && stores[j / 3].ty_name == stores[k].ty_name ==> j == 3 * k
            + c,
{
    if 0 <= j < 3 * n && j % 3 == c && stores[j / 3].ty_name == stores[k].ty_name {
        let i = j / 3;
        if i < k {
            assert(stores[i].ty_name != stores[k].ty_name);
        } else if k < i {
            assert(stores[k].ty_name != stores[i].ty_name);
        }
    }
}

} // verus!
