//! The model list: the upstream's catalogue under the rules of the
//! configuration.

use crate::chat::{Config, ConfigModel, CustomModel, CustomModelModel};
use crate::request::override_index;
use crate::text::{copy_str, lowercase_of, str_eq, to_lowercase};
use crate::upstream::{ModelInfo, ModelInfoModel};
use vstd::prelude::*;

verus! {

/// An upstream model with its id in lower case.
pub open spec fn lowercased(m: ModelInfoModel) -> ModelInfoModel {
    ModelInfoModel { id: lowercase_of(m.id), ..m }
}

/// The upstream models with their ids in lower case.
pub open spec fn lowercased_list(upstream: Seq<ModelInfoModel>) -> Seq<ModelInfoModel> {
    Seq::new(upstream.len(), |i: int| lowercased(upstream[i]))
}

/// What becomes of an upstream model under the configuration: a model
/// with an override that disables it is dropped; one with a mapping goes
/// by the mapped name in lower case; any other by its id in lower case.
pub open spec fn listed(config: ConfigModel, m: ModelInfoModel) -> Option<ModelInfoModel> {
    match override_index(config.models, m.id, 0) {
        Some(i) => {
            let o = config.models[i].1;
            if o.enable == Some(false) {
                None
            } else {
                match o.mapping {
                    Some(name) => Some(ModelInfoModel { id: lowercase_of(name), ..m }),
                    None => Some(lowercased(m)),
                }
            }
        },
        None => Some(lowercased(m)),
    }
}

/// The upstream models from index `i` on, as they are listed.
pub open spec fn listed_from(config: ConfigModel, upstream: Seq<ModelInfoModel>, i: int) -> Seq<
    ModelInfoModel,
>
    decreases upstream.len() - i,
{
    if i < 0 || i >= upstream.len() {
        Seq::empty()
    } else {
        match listed(config, upstream[i]) {
            Some(m) => seq![m] + listed_from(config, upstream, i + 1),
            None => listed_from(config, upstream, i + 1),
        }
    }
}

/// A model with the given id is in the list.
pub open spec fn has_model(list: Seq<ModelInfoModel>, id: Seq<char>) -> bool {
    exists|k: int| 0 <= k < list.len() && (#[trigger] list[k]).id == id
}

/// A custom model as an entry of the list. `now` stands in for a missing
/// creation time, `poe` for a missing owner.
pub open spec fn custom_entry(c: CustomModelModel, now: i64) -> ModelInfoModel {
    ModelInfoModel {
        id: lowercase_of(c.id),
        object: "model"@,
        created: match c.created {
            Some(t) => t,
            None => now,
        },
        owned_by: match c.owned_by {
            Some(o) => o,
            None => "poe"@,
        },
    }
}

/// Whether the configuration disables the model.
pub open spec fn is_disabled(config: ConfigModel, id: Seq<char>) -> bool {
    match override_index(config.models, id, 0) {
        Some(i) => config.models[i].1.enable == Some(false),
        None => false,
    }
}

/// The list `acc` with the custom models from index `i` on: each joins
/// the list unless a model of its id is there already or the
/// configuration disables it.
pub open spec fn with_custom(
    config: ConfigModel,
    custom: Seq<CustomModelModel>,
    now: i64,
    i: int,
    acc: Seq<ModelInfoModel>,
) -> Seq<ModelInfoModel>
    decreases custom.len() - i,
{
    if i < 0 || i >= custom.len() {
        acc
    } else if has_model(acc, lowercase_of(custom[i].id)) || is_disabled(config, custom[i].id) {
        with_custom(config, custom, now, i + 1, acc)
    } else {
        with_custom(config, custom, now, i + 1, acc.push(custom_entry(custom[i], now)))
    }
}

/// The model list that the gateway shows: with a disabled configuration
/// the upstream's list in lower case; with an enabled one the listed
/// upstream models, then the custom models.
pub open spec fn model_list(config: ConfigModel, upstream: Seq<ModelInfoModel>, now: i64) -> Seq<
    ModelInfoModel,
> {
    if Config::is_enabled(config) {
        with_custom(
            config,
            match config.custom_models {
                Some(c) => c,
                None => Seq::empty(),
            },
            now,
            0,
            listed_from(config, upstream, 0),
        )
    } else {
        lowercased_list(upstream)
    }
}

fn find_override(config: &Config, id: &str) -> (r: Option<usize>)
    ensures
        crate::text::index_view(r) == override_index(config.deep_view().models, id@, 0),
        r is Some ==> r->0 < config.models.len(),
{
    let wanted = to_lowercase(id);
    let mut i: usize = 0;
    while i < config.models.len()
        invariant
            i <= config.models.len(),
            wanted@ == lowercase_of(id@),
            override_index(config.deep_view().models, id@, 0) == override_index(
                config.deep_view().models,
                id@,
                i as int,
            ),
        decreases config.models.len() - i,
    {
        assert(config.models.deep_view()[i as int] == config.models@[i as int].deep_view());
        if str_eq(to_lowercase(config.models[i].0.as_str()).as_str(), wanted.as_str()) {
            return Some(i);
        }
        i += 1;
    }
    None
}

fn renamed(m: &ModelInfo, id: String) -> (r: ModelInfo)
    ensures
        r.deep_view() == (ModelInfoModel { id: id@, ..m.deep_view() }),
{
    ModelInfo { id, object: m.object.clone(), created: m.created, owned_by: m.owned_by.clone() }
}

fn listed_exec(config: &Config, m: &ModelInfo) -> (r: Option<ModelInfo>)
    ensures
        r.deep_view() == listed(config.deep_view(), m.deep_view()),
{
    match find_override(config, m.id.as_str()) {
        Some(i) => {
            assert(config.models.deep_view()[i as int] == config.models@[i as int].deep_view());
            let disabled = match config.models[i].1.enable {
                Some(e) => !e,
                None => false,
            };
            if disabled {
                None
            } else {
                match &config.models[i].1.mapping {
                    Some(name) => Some(renamed(m, to_lowercase(name.as_str()))),
                    None => Some(renamed(m, to_lowercase(m.id.as_str()))),
                }
            }
        },
        None => Some(renamed(m, to_lowercase(m.id.as_str()))),
    }
}

fn is_disabled_exec(config: &Config, id: &str) -> (r: bool)
    ensures
        r == is_disabled(config.deep_view(), id@),
{
    match find_override(config, id) {
        Some(i) => {
            assert(config.models.deep_view()[i as int] == config.models@[i as int].deep_view());
            match config.models[i].1.enable {
                Some(e) => !e,
                None => false,
            }
        },
        None => false,
    }
}

fn has_model_exec(list: &Vec<ModelInfo>, id: &str) -> (r: bool)
    ensures
        r == has_model(list.deep_view(), id@),
{
    let mut k: usize = 0;
    while k < list.len()
        invariant
            k <= list.len(),
            forall|j: int| 0 <= j < k ==> (#[trigger] list.deep_view()[j]).id != id@,
        decreases list.len() - k,
    {
        assert(list.deep_view()[k as int] == list@[k as int].deep_view());
        if str_eq(list[k].id.as_str(), id) {
            return true;
        }
        k += 1;
    }
    false
}

fn custom_entry_exec(c: &CustomModel, now: i64) -> (r: ModelInfo)
    ensures
        r.deep_view() == custom_entry(c.deep_view(), now),
{
    ModelInfo {
        id: to_lowercase(c.id.as_str()),
        object: copy_str("model"),
        created: match c.created {
            Some(t) => t,
            None => now,
        },
        owned_by: match &c.owned_by {
            Some(o) => o.clone(),
            None => copy_str("poe"),
        },
    }
}

/// The upstream's catalogue with the ids in lower case.
pub fn get_models_from_api(upstream: &Vec<ModelInfo>) -> (r: Vec<ModelInfo>)
    ensures
        r.deep_view() == lowercased_list(upstream.deep_view()),
{
    let mut out: Vec<ModelInfo> = Vec::new();
    let mut i: usize = 0;
    while i < upstream.len()
        invariant
            i <= upstream.len(),
            out.len() == i,
            forall|k: int|
                0 <= k < i ==> (#[trigger] out@[k]).deep_view() == lowercased(
                    upstream@[k].deep_view(),
                ),
        decreases upstream.len() - i,
    {
        out.push(renamed(&upstream[i], to_lowercase(upstream[i].id.as_str())));
        i += 1;
    }
    assert(out.deep_view() =~= lowercased_list(upstream.deep_view()));
    out
}

/// The model list that the gateway shows for the upstream's catalogue.
/// `now` is the creation time of custom models that state none.
pub fn get_models(config: &Config, upstream: &Vec<ModelInfo>, now: i64) -> (r: Vec<ModelInfo>)
    ensures
        r.deep_view() == model_list(config.deep_view(), upstream.deep_view(), now),
{
    if !config.enabled() {
        return get_models_from_api(upstream);
    }
    let mut out: Vec<ModelInfo> = Vec::new();
    assert(out.deep_view() =~= Seq::<ModelInfoModel>::empty());
    let mut i: usize = 0;
    while i < upstream.len()
        invariant
            i <= upstream.len(),
            listed_from(config.deep_view(), upstream.deep_view(), 0) == out.deep_view()
                + listed_from(config.deep_view(), upstream.deep_view(), i as int),
        decreases upstream.len() - i,
    {
        assert(upstream.deep_view()[i as int] == upstream@[i as int].deep_view());
        match listed_exec(config, &upstream[i]) {
            Some(m) => {
                let ghost before = out.deep_view();
                out.push(m);
                assert(out.deep_view() =~= before.push(m.deep_view()));
                assert(before + (seq![m.deep_view()] + listed_from(
                    config.deep_view(),
                    upstream.deep_view(),
                    i + 1,
                )) =~= out.deep_view() + listed_from(
                    config.deep_view(),
                    upstream.deep_view(),
                    i + 1,
                ));
            },
            None => {},
        }
        i += 1;
    }
    assert(out.deep_view() + Seq::<ModelInfoModel>::empty() =~= out.deep_view());
    match &config.custom_models {
        Some(custom) => {
            let mut k: usize = 0;
            while k < custom.len()
                invariant
                    k <= custom.len(),
                    with_custom(
                        config.deep_view(),
                        custom.deep_view(),
                        now,
                        0,
                        listed_from(config.deep_view(), upstream.deep_view(), 0),
                    ) == with_custom(
                        config.deep_view(),
                        custom.deep_view(),
                        now,
                        k as int,
                        out.deep_view(),
                    ),
                decreases custom.len() - k,
            {
                assert(custom.deep_view()[k as int] == custom@[k as int].deep_view());
                let id = to_lowercase(custom[k].id.as_str());
                if !has_model_exec(&out, id.as_str()) && !is_disabled_exec(
                    config,
                    custom[k].id.as_str(),
                ) {
                    let ghost before = out.deep_view();
                    let entry = custom_entry_exec(&custom[k], now);
                    out.push(entry);
                    assert(out.deep_view() =~= before.push(entry.deep_view()));
                }
                k += 1;
            }
        },
        None => {},
    }
    out
}

} // verus!
