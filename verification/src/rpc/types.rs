//! JSON-RPC 2.0 messages and the parameters of each supported method.
use vstd::prelude::*;
use crate::json::{f64_form, lookup, float_text, int_number, Json, JsonNumber, JsonView, Member, NumberView, push_member, view_members, view_opt};
use crate::rpc::read::{keys_distinct, lemma_read_object_fields, read_value, FieldSpec, FieldValue, Kind, ValueView, field_index, finish, kind_ok, lemma_read_struct_kinds, read_fields, read_struct, scan, schema_view, values_view};

verus! {

fn field(key: &'static str, kind: Kind, optional: bool) -> (r: FieldSpec)
    ensures
        r.key@ == key@,
        r.kind == kind,
        r.optional == optional,
{
    FieldSpec { key, kind, optional }
}

/// The model of [`MixerSetParams`].
pub struct MixerView {
    pub track: Seq<char>,
    pub param: Seq<char>,
    pub value: NumberView,
}

/// Parameters of `mixer.set`: set mixer parameter `param` of `track` to `value`.
pub struct MixerSetParams {
    pub track: String,
    pub param: String,
    /// The value as an `f64`, in serde_json's float form.
    pub value: JsonNumber,
}

impl View for MixerSetParams {
    type V = MixerView;

    open spec fn view(&self) -> MixerView {
        MixerView { track: self.track@, param: self.param@, value: self.value@ }
    }
}

/// The fields of `mixer.set` parameters.
pub open spec fn mixer_schema() -> Seq<(Seq<char>, Kind, bool)> {
    seq![("track"@, Kind::Text, false), ("param"@, Kind::Text, false), ("value"@, Kind::Number, false)]
}

/// Reading `mixer.set` parameters: `track` and `param` strings and a
/// numeric `value`, as serde reads the struct `MixerSetParams`, whose
/// `value` is an `f64` (so it is kept in serde_json's float form: an
/// integer `-6` becomes `-6.0`); on failure, serde's message.
pub open spec fn spec_mixer_params(p: JsonView) -> Result<MixerView, Seq<char>> {
    match read_struct(p, "MixerSetParams"@, mixer_schema()) {
        Err(e) => Err(e),
        Ok(vs) => Ok(MixerView { track: vs[0]->Text_0, param: vs[1]->Text_0, value: NumberView::Float(f64_form(vs[2]->Number_0)) }),
    }
}

/// The JSON form of `mixer.set` parameters, members in key order.
pub open spec fn mixer_json(m: MixerView) -> JsonView {
    JsonView::Object(seq![
        ("param"@, JsonView::Str(m.param)),
        ("track"@, JsonView::Str(m.track)),
        ("value"@, JsonView::Number(m.value)),
    ])
}

fn text_of(v: &FieldValue) -> (r: String)
    requires
        v@ is Text,
    ensures
        r@ == v@->Text_0,
{
    match v {
        FieldValue::Text(s) => s.clone(),
        _ => String::new(),
    }
}

/// The number of a field read as an `f64`, in serde_json's float form.
fn float_of(v: &FieldValue) -> (r: JsonNumber)
    requires
        v@ is Number,
    ensures
        r@ == NumberView::Float(f64_form(v@->Number_0)),
{
    match v {
        FieldValue::Number(n) => JsonNumber::Float(float_text(n)),
        _ => JsonNumber::Unsigned(0),
    }
}

fn small_of(v: &FieldValue) -> (r: u32)
    requires
        v@ is Small,
    ensures
        r == v@->Small_0,
{
    match v {
        FieldValue::Small(u) => *u,
        _ => 0,
    }
}

fn any_of(v: &FieldValue) -> (r: Json)
    requires
        v@ is Any,
    ensures
        r@ == v@->Any_0,
{
    match v {
        FieldValue::Any(j) => j.deep_clone(),
        _ => Json::Null,
    }
}

impl MixerSetParams {
    /// Reads `mixer.set` parameters from a JSON value.
    pub fn from_json(p: &Json) -> (r: Result<MixerSetParams, String>)
        ensures
            match r {
                Ok(m) => spec_mixer_params(p@) == Ok::<MixerView, Seq<char>>(m@),
                Err(e) => spec_mixer_params(p@) == Err::<MixerView, Seq<char>>(e@),
            },
    {
        let schema = vec![field("track", Kind::Text, false), field("param", Kind::Text, false), field("value", Kind::Number, false)];
        proof {
            assert(schema_view(schema@) =~= mixer_schema());
            lemma_read_struct_kinds(p@, "MixerSetParams"@, mixer_schema());
        }
        let vs = read_fields(p, "MixerSetParams", &schema)?;
        proof {
            assert(kind_ok(mixer_schema()[0].1, values_view(vs@)[0]));
            assert(kind_ok(mixer_schema()[1].1, values_view(vs@)[1]));
            assert(kind_ok(mixer_schema()[2].1, values_view(vs@)[2]));
        }
        Ok(MixerSetParams { track: text_of(&vs[0]), param: text_of(&vs[1]), value: float_of(&vs[2]) })
    }

    /// The JSON form of these parameters.
    pub fn to_json(&self) -> (r: Json)
        ensures
            r@ == mixer_json(self@),
    {
        let mut ms: Vec<Member> = Vec::new();
        push_member(&mut ms, "param", Json::Str(self.param.clone()));
        push_member(&mut ms, "track", Json::Str(self.track.clone()));
        push_member(&mut ms, "value", Json::Number(self.value.duplicate()));
        assert(view_members(ms@) =~= mixer_json(self@)->Object_0);
        Json::Object(ms)
    }
}

/// The model of [`PluginSetParamParams`].
pub struct PluginView {
    pub track: Seq<char>,
    pub slot: u32,
    pub plugin: Seq<char>,
    pub param: Seq<char>,
    pub value: NumberView,
}

/// Parameters of `plugin.set_param`: set parameter `param` of the plugin
/// `plugin` in insert slot `slot` of `track` to `value`.
pub struct PluginSetParamParams {
    pub track: String,
    pub slot: u32,
    pub plugin: String,
    pub param: String,
    /// The value as an `f64`, in serde_json's float form.
    pub value: JsonNumber,
}

impl View for PluginSetParamParams {
    type V = PluginView;

    open spec fn view(&self) -> PluginView {
        PluginView {
            track: self.track@,
            slot: self.slot,
            plugin: self.plugin@,
            param: self.param@,
            value: self.value@,
        }
    }
}

/// The fields of `plugin.set_param` parameters.
pub open spec fn plugin_schema() -> Seq<(Seq<char>, Kind, bool)> {
    seq![
        ("track"@, Kind::Text, false),
        ("slot"@, Kind::Small, false),
        ("plugin"@, Kind::Text, false),
        ("param"@, Kind::Text, false),
        ("value"@, Kind::Number, false),
    ]
}

/// Reading `plugin.set_param` parameters: `track`, `plugin` and `param`
/// strings, a `slot` from 0 to `u32::MAX` and a numeric `value`, as serde
/// reads the struct `PluginSetParamParams`, whose `value` is an `f64` (kept
/// in serde_json's float form); on failure, serde's message.
pub open spec fn spec_plugin_params(p: JsonView) -> Result<PluginView, Seq<char>> {
    match read_struct(p, "PluginSetParamParams"@, plugin_schema()) {
        Err(e) => Err(e),
        Ok(vs) => Ok(PluginView {
            track: vs[0]->Text_0,
            slot: vs[1]->Small_0,
            plugin: vs[2]->Text_0,
            param: vs[3]->Text_0,
            value: NumberView::Float(f64_form(vs[4]->Number_0)),
        }),
    }
}

/// The JSON form of `plugin.set_param` parameters, members in key order.
pub open spec fn plugin_json(m: PluginView) -> JsonView {
    JsonView::Object(seq![
        ("param"@, JsonView::Str(m.param)),
        ("plugin"@, JsonView::Str(m.plugin)),
        ("slot"@, JsonView::Number(NumberView::Unsigned(m.slot as u64))),
        ("track"@, JsonView::Str(m.track)),
        ("value"@, JsonView::Number(m.value)),
    ])
}

impl PluginSetParamParams {
    /// Reads `plugin.set_param` parameters from a JSON value.
    pub fn from_json(p: &Json) -> (r: Result<PluginSetParamParams, String>)
        ensures
            match r {
                Ok(m) => spec_plugin_params(p@) == Ok::<PluginView, Seq<char>>(m@),
                Err(e) => spec_plugin_params(p@) == Err::<PluginView, Seq<char>>(e@),
            },
    {
        let schema = vec![
            field("track", Kind::Text, false),
            field("slot", Kind::Small, false),
            field("plugin", Kind::Text, false),
            field("param", Kind::Text, false),
            field("value", Kind::Number, false),
        ];
        proof {
            assert(schema_view(schema@) =~= plugin_schema());
            lemma_read_struct_kinds(p@, "PluginSetParamParams"@, plugin_schema());
        }
        let vs = read_fields(p, "PluginSetParamParams", &schema)?;
        proof {
            assert(kind_ok(plugin_schema()[0].1, values_view(vs@)[0]));
            assert(kind_ok(plugin_schema()[1].1, values_view(vs@)[1]));
            assert(kind_ok(plugin_schema()[2].1, values_view(vs@)[2]));
            assert(kind_ok(plugin_schema()[3].1, values_view(vs@)[3]));
            assert(kind_ok(plugin_schema()[4].1, values_view(vs@)[4]));
        }
        Ok(PluginSetParamParams {
            track: text_of(&vs[0]),
            slot: small_of(&vs[1]),
            plugin: text_of(&vs[2]),
            param: text_of(&vs[3]),
            value: float_of(&vs[4]),
        })
    }

    /// The JSON form of these parameters.
    pub fn to_json(&self) -> (r: Json)
        ensures
            r@ == plugin_json(self@),
    {
        let mut ms: Vec<Member> = Vec::new();
        push_member(&mut ms, "param", Json::Str(self.param.clone()));
        push_member(&mut ms, "plugin", Json::Str(self.plugin.clone()));
        push_member(&mut ms, "slot", Json::Number(JsonNumber::Unsigned(self.slot as u64)));
        push_member(&mut ms, "track", Json::Str(self.track.clone()));
        push_member(&mut ms, "value", Json::Number(self.value.duplicate()));
        assert(view_members(ms@) =~= plugin_json(self@)->Object_0);
        Json::Object(ms)
    }
}

/// Parameters of `command.exec`: run the Cubase command named `id`
/// (such as `"Transport_Play"`).
pub struct CommandExecParams {
    pub id: String,
}

/// The fields of `command.exec` parameters.
pub open spec fn command_schema() -> Seq<(Seq<char>, Kind, bool)> {
    seq![("id"@, Kind::Text, false)]
}

/// Reading `command.exec` parameters: an `id` string, as serde reads the
/// struct `CommandExecParams`; on failure, serde's message.
pub open spec fn spec_command_params(p: JsonView) -> Result<Seq<char>, Seq<char>> {
    match read_struct(p, "CommandExecParams"@, command_schema()) {
        Err(e) => Err(e),
        Ok(vs) => Ok(vs[0]->Text_0),
    }
}

/// The JSON form of `command.exec` parameters.
pub open spec fn command_json(id: Seq<char>) -> JsonView {
    JsonView::Object(seq![("id"@, JsonView::Str(id))])
}

impl CommandExecParams {
    /// Reads `command.exec` parameters from a JSON value.
    pub fn from_json(p: &Json) -> (r: Result<CommandExecParams, String>)
        ensures
            match r {
                Ok(c) => spec_command_params(p@) == Ok::<Seq<char>, Seq<char>>(c.id@),
                Err(e) => spec_command_params(p@) == Err::<Seq<char>, Seq<char>>(e@),
            },
    {
        let schema = vec![field("id", Kind::Text, false)];
        proof {
            assert(schema_view(schema@) =~= command_schema());
            lemma_read_struct_kinds(p@, "CommandExecParams"@, command_schema());
        }
        let vs = read_fields(p, "CommandExecParams", &schema)?;
        proof {
            assert(kind_ok(command_schema()[0].1, values_view(vs@)[0]));
        }
        Ok(CommandExecParams { id: text_of(&vs[0]) })
    }

    /// The JSON form of these parameters.
    pub fn to_json(&self) -> (r: Json)
        ensures
            r@ == command_json(self.id@),
    {
        let mut ms: Vec<Member> = Vec::new();
        push_member(&mut ms, "id", Json::Str(self.id.clone()));
        assert(view_members(ms@) =~= command_json(self.id@)->Object_0);
        Json::Object(ms)
    }
}

proof fn lemma_plugin_read_back(m: PluginView)
    requires
        m.value == NumberView::Float(f64_form(m.value)),
    ensures
        spec_plugin_params(plugin_json(m)) == Ok::<PluginView, Seq<char>>(m),
{
    reveal_strlit("track");
    reveal_strlit("slot");
    reveal_strlit("plugin");
    reveal_strlit("param");
    reveal_strlit("value");
    assert("plugin"@[1] != "param"@[1]);
    assert("value"@[0] != "track"@[0] && "value"@[0] != "slot"@[0]);
    assert("value"@[0] != "plugin"@[0] && "value"@[0] != "param"@[0]);
    let sch = plugin_schema();
    let e0 = sch.subrange(0, 0);
    let e1 = sch.subrange(0, 1);
    let e2 = sch.subrange(0, 2);
    let e3 = sch.subrange(0, 3);
    let e4 = sch.subrange(0, 4);
    assert(e0 =~= Seq::<(Seq<char>, Kind, bool)>::empty());
    assert(e1.drop_last() =~= e0 && e1.last() == sch[0]);
    assert(e2.drop_last() =~= e1 && e2.last() == sch[1]);
    assert(e3.drop_last() =~= e2 && e3.last() == sch[2]);
    assert(e4.drop_last() =~= e3 && e4.last() == sch[3]);
    assert(sch.drop_last() =~= e4 && sch.last() == sch[4]);
    assert(field_index(e0, "track"@) is None);
    assert(field_index(e0, "slot"@) is None);
    assert(field_index(e0, "plugin"@) is None);
    assert(field_index(e0, "param"@) is None);
    assert(field_index(e0, "value"@) is None);
    assert(field_index(e1, "track"@) == Some(0int));
    assert(field_index(e1, "slot"@) is None);
    assert(field_index(e1, "plugin"@) is None);
    assert(field_index(e1, "param"@) is None);
    assert(field_index(e1, "value"@) is None);
    assert(field_index(e2, "track"@) == Some(0int));
    assert(field_index(e2, "slot"@) == Some(1int));
    assert(field_index(e2, "plugin"@) is None);
    assert(field_index(e2, "param"@) is None);
    assert(field_index(e2, "value"@) is None);
    assert(field_index(e3, "track"@) == Some(0int));
    assert(field_index(e3, "slot"@) == Some(1int));
    assert(field_index(e3, "plugin"@) == Some(2int));
    assert(field_index(e3, "param"@) is None);
    assert(field_index(e3, "value"@) is None);
    assert(field_index(e4, "track"@) == Some(0int));
    assert(field_index(e4, "slot"@) == Some(1int));
    assert(field_index(e4, "plugin"@) == Some(2int));
    assert(field_index(e4, "param"@) == Some(3int));
    assert(field_index(e4, "value"@) is None);
    assert(field_index(sch, "track"@) == Some(0int));
    assert(field_index(sch, "slot"@) == Some(1int));
    assert(field_index(sch, "plugin"@) == Some(2int));
    assert(field_index(sch, "param"@) == Some(3int));
    assert(field_index(sch, "value"@) == Some(4int));
    let ms = plugin_json(m)->Object_0;
    let m0 = ms.subrange(0, 0);
    let m1 = ms.subrange(0, 1);
    let m2 = ms.subrange(0, 2);
    let m3 = ms.subrange(0, 3);
    let m4 = ms.subrange(0, 4);
    assert(m0 =~= Seq::<(Seq<char>, JsonView)>::empty());
    assert(m1.drop_last() =~= m0 && m1.last() == ms[0]);
    assert(m2.drop_last() =~= m1 && m2.last() == ms[1]);
    assert(m3.drop_last() =~= m2 && m3.last() == ms[2]);
    assert(m4.drop_last() =~= m3 && m4.last() == ms[3]);
    assert(ms.drop_last() =~= m4 && ms.last() == ms[4]);
    let s0 = Seq::new(5, |j: int| None::<ValueView>);
    assert(scan(m0, sch) == Ok::<Seq<Option<ValueView>>, Seq<char>>(s0));
    let s1 = s0.update(3, Some(ValueView::Text(m.param)));
    assert(scan(m1, sch) == Ok::<Seq<Option<ValueView>>, Seq<char>>(s1));
    let s2 = s1.update(2, Some(ValueView::Text(m.plugin)));
    assert(scan(m2, sch) == Ok::<Seq<Option<ValueView>>, Seq<char>>(s2));
    assert((m.slot as u64) as u32 == m.slot);
    let s3 = s2.update(1, Some(ValueView::Small(m.slot)));
    assert(scan(m3, sch) == Ok::<Seq<Option<ValueView>>, Seq<char>>(s3));
    let s4 = s3.update(0, Some(ValueView::Text(m.track)));
    assert(scan(m4, sch) == Ok::<Seq<Option<ValueView>>, Seq<char>>(s4));
    let s5 = s4.update(4, Some(ValueView::Number(m.value)));
    assert(scan(ms, sch) == Ok::<Seq<Option<ValueView>>, Seq<char>>(s5));
    let v1 = seq![ValueView::Text(m.track)];
    let v2 = v1.push(ValueView::Small(m.slot));
    let v3 = v2.push(ValueView::Text(m.plugin));
    let v4 = v3.push(ValueView::Text(m.param));
    let v5 = v4.push(ValueView::Number(m.value));
    assert(finish(s5, sch, 0) == Ok::<Seq<ValueView>, Seq<char>>(Seq::empty()));
    assert(Seq::<ValueView>::empty().push(ValueView::Text(m.track)) =~= v1);
    assert(finish(s5, sch, 1) == Ok::<Seq<ValueView>, Seq<char>>(v1));
    assert(finish(s5, sch, 2) == Ok::<Seq<ValueView>, Seq<char>>(v2));
    assert(finish(s5, sch, 3) == Ok::<Seq<ValueView>, Seq<char>>(v3));
    assert(finish(s5, sch, 4) == Ok::<Seq<ValueView>, Seq<char>>(v4));
    assert(finish(s5, sch, 5) == Ok::<Seq<ValueView>, Seq<char>>(v5));
    assert(v5[0] == ValueView::Text(m.track) && v5[1] == ValueView::Small(m.slot) && v5[2] == ValueView::Text(m.plugin)
        && v5[3] == ValueView::Text(m.param) && v5[4] == ValueView::Number(m.value));
}

/// The parameters that are sent to Cubase read back as the same
/// parameters: writing them as JSON and reading them again loses nothing,
/// wherever the `value` is a float text that serde_json reads back as
/// itself (every text it writes for an integer of magnitude at most 2^53,
/// such as `-6.0`, is one).
pub proof fn law_params_read_back(m: MixerView, pl: PluginView, id: Seq<char>)
    requires
        m.value == NumberView::Float(f64_form(m.value)),
        pl.value == NumberView::Float(f64_form(pl.value)),
    ensures
        spec_mixer_params(mixer_json(m)) == Ok::<MixerView, Seq<char>>(m),
        spec_plugin_params(plugin_json(pl)) == Ok::<PluginView, Seq<char>>(pl),
        spec_command_params(command_json(id)) == Ok::<Seq<char>, Seq<char>>(id),
{
    lemma_plugin_read_back(pl);
    reveal_strlit("track");
    reveal_strlit("param");
    reveal_strlit("value");
    reveal_strlit("id");
    assert("track"@[0] != "param"@[0]);
    assert("track"@[0] != "value"@[0]);
    assert("param"@[0] != "value"@[0]);
    let sch = mixer_schema();
    assert(sch.drop_last().drop_last().drop_last() =~= Seq::<(Seq<char>, Kind, bool)>::empty());
    let d1 = sch.drop_last().drop_last();
    let d2 = sch.drop_last();
    assert(d1.drop_last() =~= Seq::<(Seq<char>, Kind, bool)>::empty());
    assert(d1.last() == sch[0] && d2.last() == sch[1] && d2.drop_last() == d1);
    assert(field_index(d1.drop_last(), "track"@) is None);
    assert(field_index(d1.drop_last(), "param"@) is None);
    assert(d1.len() == 1);
    assert(field_index(d1, "track"@) == Some(0int));
    assert(field_index(d2, "track"@) == Some(0int));
    assert(field_index(sch, "track"@) == Some(0int));
    assert(field_index(d1, "param"@) is None);
    assert(field_index(d2, "param"@) == Some(1int));
    assert(field_index(sch, "param"@) == Some(1int));
    assert(field_index(d1.drop_last(), "value"@) is None);
    assert(field_index(d1, "value"@) is None);
    assert(field_index(d2, "value"@) is None);
    assert(field_index(sch, "value"@) == Some(2int));
    let ms = mixer_json(m)->Object_0;
    let none = Seq::new(3, |j: int| None::<ValueView>);
    assert(ms.drop_last().drop_last().drop_last() =~= Seq::<(Seq<char>, JsonView)>::empty());
    assert(scan(ms.drop_last().drop_last().drop_last(), sch) == Ok::<Seq<Option<ValueView>>, Seq<char>>(none));
    let s1 = none.update(1, Some(ValueView::Text(m.param)));
    assert(scan(ms.drop_last().drop_last(), sch) == Ok::<Seq<Option<ValueView>>, Seq<char>>(s1));
    let s2 = s1.update(0, Some(ValueView::Text(m.track)));
    assert(scan(ms.drop_last(), sch) == Ok::<Seq<Option<ValueView>>, Seq<char>>(s2));
    let s3 = s2.update(2, Some(ValueView::Number(m.value)));
    assert(scan(ms, sch) == Ok::<Seq<Option<ValueView>>, Seq<char>>(s3));
    assert(finish(s3, sch, 0) == Ok::<Seq<ValueView>, Seq<char>>(Seq::empty()));
    assert(Seq::<ValueView>::empty().push(ValueView::Text(m.track)) =~= seq![ValueView::Text(m.track)]);
    assert(finish(s3, sch, 1) == Ok::<Seq<ValueView>, Seq<char>>(seq![ValueView::Text(m.track)]));
    assert(seq![ValueView::Text(m.track)].push(ValueView::Text(m.param)) =~= seq![ValueView::Text(m.track), ValueView::Text(m.param)]);
    assert(finish(s3, sch, 2) == Ok::<Seq<ValueView>, Seq<char>>(seq![ValueView::Text(m.track), ValueView::Text(m.param)]));
    assert(seq![ValueView::Text(m.track), ValueView::Text(m.param)].push(ValueView::Number(m.value))
        =~= seq![ValueView::Text(m.track), ValueView::Text(m.param), ValueView::Number(m.value)]);
    assert(finish(s3, sch, 3) == Ok::<Seq<ValueView>, Seq<char>>(seq![ValueView::Text(m.track), ValueView::Text(m.param), ValueView::Number(m.value)]));
    let cs = command_schema();
    assert(cs.drop_last() =~= Seq::<(Seq<char>, Kind, bool)>::empty());
    assert(field_index(cs.drop_last(), "id"@) is None);
    assert(cs.last() == cs[0] && cs.len() == 1);
    assert(field_index(cs, "id"@) == Some(0int));
    let cm = command_json(id)->Object_0;
    assert(cm.drop_last() =~= Seq::<(Seq<char>, JsonView)>::empty());
    let c0 = Seq::new(1, |j: int| None::<ValueView>);
    assert(scan(cm.drop_last(), cs) == Ok::<Seq<Option<ValueView>>, Seq<char>>(c0));
    assert(scan(cm, cs) == Ok::<Seq<Option<ValueView>>, Seq<char>>(c0.update(0, Some(ValueView::Text(id)))));
    let c1 = c0.update(0, Some(ValueView::Text(id)));
    assert(finish(c1, cs, 0) == Ok::<Seq<ValueView>, Seq<char>>(Seq::empty()));
    assert(Seq::<ValueView>::empty().push(ValueView::Text(id)) =~= seq![ValueView::Text(id)]);
    assert(finish(c1, cs, 1) == Ok::<Seq<ValueView>, Seq<char>>(seq![ValueView::Text(id)]));
}

/// The model of a [`JsonRpcRequest`].
pub struct RequestView {
    pub jsonrpc: Seq<char>,
    pub method: Seq<char>,
    pub params: JsonView,
    pub id: JsonView,
}

/// A JSON-RPC 2.0 request. `params` and `id` may be absent, and then are `null`.
pub struct JsonRpcRequest {
    pub jsonrpc: String,
    pub method: String,
    pub params: Json,
    pub id: Json,
}

impl View for JsonRpcRequest {
    type V = RequestView;

    open spec fn view(&self) -> RequestView {
        RequestView { jsonrpc: self.jsonrpc@, method: self.method@, params: self.params@, id: self.id@ }
    }
}

/// The fields of a request.
pub open spec fn request_schema() -> Seq<(Seq<char>, Kind, bool)> {
    seq![
        ("jsonrpc"@, Kind::Text, false),
        ("method"@, Kind::Text, false),
        ("params"@, Kind::Any, true),
        ("id"@, Kind::Any, true),
    ]
}

/// Reading a request: `jsonrpc` and `method` strings, and optional `params`
/// and `id` of any JSON type, as serde reads the struct `JsonRpcRequest`.
pub open spec fn spec_request(p: JsonView) -> Result<RequestView, Seq<char>> {
    match read_struct(p, "JsonRpcRequest"@, request_schema()) {
        Err(e) => Err(e),
        Ok(vs) => Ok(RequestView {
            jsonrpc: vs[0]->Text_0,
            method: vs[1]->Text_0,
            params: vs[2]->Any_0,
            id: vs[3]->Any_0,
        }),
    }
}

impl JsonRpcRequest {
    /// Reads a request from a JSON value.
    pub fn from_json(p: &Json) -> (r: Result<JsonRpcRequest, String>)
        ensures
            match r {
                Ok(q) => spec_request(p@) == Ok::<RequestView, Seq<char>>(q@),
                Err(e) => spec_request(p@) == Err::<RequestView, Seq<char>>(e@),
            },
    {
        let schema = vec![
            field("jsonrpc", Kind::Text, false),
            field("method", Kind::Text, false),
            field("params", Kind::Any, true),
            field("id", Kind::Any, true),
        ];
        proof {
            assert(schema_view(schema@) =~= request_schema());
            lemma_read_struct_kinds(p@, "JsonRpcRequest"@, request_schema());
        }
        let vs = read_fields(p, "JsonRpcRequest", &schema)?;
        proof {
            assert(kind_ok(request_schema()[0].1, values_view(vs@)[0]));
            assert(kind_ok(request_schema()[1].1, values_view(vs@)[1]));
            assert(kind_ok(request_schema()[2].1, values_view(vs@)[2]));
            assert(kind_ok(request_schema()[3].1, values_view(vs@)[3]));
        }
        Ok(JsonRpcRequest {
            jsonrpc: text_of(&vs[0]),
            method: text_of(&vs[1]),
            params: any_of(&vs[2]),
            id: any_of(&vs[3]),
        })
    }
}

/// The model of a [`JsonRpcError`].
pub struct ErrorView {
    pub code: i32,
    pub message: Seq<char>,
    pub data: Option<JsonView>,
}

/// The `error` member of a JSON-RPC response.
pub struct JsonRpcError {
    pub code: i32,
    pub message: String,
    pub data: Option<Json>,
}

impl View for JsonRpcError {
    type V = ErrorView;

    open spec fn view(&self) -> ErrorView {
        ErrorView { code: self.code, message: self.message@, data: view_opt(self.data) }
    }
}

/// The model of a [`JsonRpcResponse`].
pub struct ResponseView {
    pub jsonrpc: Seq<char>,
    pub result: Option<JsonView>,
    pub error: Option<ErrorView>,
    pub id: JsonView,
}

/// A JSON-RPC 2.0 response: a `result` or an `error`, and the request's `id`.
pub struct JsonRpcResponse {
    pub jsonrpc: String,
    pub result: Option<Json>,
    pub error: Option<JsonRpcError>,
    pub id: Json,
}

/// The model of an optional error.
pub open spec fn error_view_opt(e: Option<JsonRpcError>) -> Option<ErrorView> {
    match e {
        Some(x) => Some(x@),
        None => None,
    }
}

impl View for JsonRpcResponse {
    type V = ResponseView;

    open spec fn view(&self) -> ResponseView {
        ResponseView {
            jsonrpc: self.jsonrpc@,
            result: view_opt(self.result),
            error: error_view_opt(self.error),
            id: self.id@,
        }
    }
}

/// The successful response carrying `result`.
pub open spec fn ok_response(id: JsonView, result: JsonView) -> ResponseView {
    ResponseView { jsonrpc: "2.0"@, result: Some(result), error: None, id }
}

/// The error response with `code`, `message` and optional `data`.
pub open spec fn err_response(id: JsonView, code: i32, message: Seq<char>, data: Option<JsonView>) -> ResponseView {
    ResponseView {
        jsonrpc: "2.0"@,
        result: None,
        error: Some(ErrorView { code, message, data }),
        id,
    }
}

/// The JSON form of an error: `code`, `message`, and `data` when there is some.
pub open spec fn error_json(e: ErrorView) -> JsonView {
    let base = seq![
        ("code"@, JsonView::Number(int_number(e.code as int))),
        ("message"@, JsonView::Str(e.message)),
    ];
    JsonView::Object(
        match e.data {
            Some(d) => base.push(("data"@, d)),
            None => base,
        },
    )
}

/// The JSON form of a response: `jsonrpc`, then `result` and `error` where
/// present, then `id`.
pub open spec fn response_json(r: ResponseView) -> JsonView {
    let a = seq![("jsonrpc"@, JsonView::Str(r.jsonrpc))];
    let b = match r.result {
        Some(x) => a.push(("result"@, x)),
        None => a,
    };
    let c = match r.error {
        Some(e) => b.push(("error"@, error_json(e))),
        None => b,
    };
    JsonView::Object(c.push(("id"@, r.id)))
}

impl JsonRpcError {
    /// The JSON form of this error.
    pub fn to_json(&self) -> (r: Json)
        ensures
            r@ == error_json(self@),
    {
        let mut ms: Vec<Member> = Vec::new();
        push_member(&mut ms, "code", Json::integer(self.code as i64));
        push_member(&mut ms, "message", Json::Str(self.message.clone()));
        match &self.data {
            Some(d) => {
                push_member(&mut ms, "data", d.deep_clone());
            },
            None => {},
        }
        assert(view_members(ms@) =~= error_json(self@)->Object_0);
        Json::Object(ms)
    }
}

impl JsonRpcResponse {
    /// The successful response to the request `id`.
    pub fn ok(id: Json, result: Json) -> (r: JsonRpcResponse)
        ensures
            r@ == ok_response(id@, result@),
    {
        JsonRpcResponse { jsonrpc: "2.0".to_owned(), result: Some(result), error: None, id }
    }

    /// The error response to the request `id`.
    pub fn err(id: Json, code: i32, message: String, data: Option<Json>) -> (r: JsonRpcResponse)
        ensures
            r@ == err_response(id@, code, message@, view_opt(data)),
    {
        JsonRpcResponse {
            jsonrpc: "2.0".to_owned(),
            result: None,
            error: Some(JsonRpcError { code, message, data }),
            id,
        }
    }

    /// The JSON form of this response; absent `result` and `error` members
    /// are left out.
    pub fn to_json(&self) -> (r: Json)
        ensures
            r@ == response_json(self@),
    {
        let mut ms: Vec<Member> = Vec::new();
        push_member(&mut ms, "jsonrpc", Json::Str(self.jsonrpc.clone()));
        match &self.result {
            Some(x) => {
                push_member(&mut ms, "result", x.deep_clone());
            },
            None => {},
        }
        match &self.error {
            Some(e) => {
                push_member(&mut ms, "error", e.to_json());
            },
            None => {},
        }
        push_member(&mut ms, "id", self.id.deep_clone());
        assert(view_members(ms@) =~= response_json(self@)->Object_0);
        Json::Object(ms)
    }
}

/// `plugin.set_param` parameters read from an object are the object's
/// own members: `track`, `plugin` and `param` are its strings of those
/// names, `slot` is its integer `slot`, and `value` is its number `value`
/// read as an `f64`.
pub proof fn law_plugin_params_are_the_members(p: JsonView, m: PluginView)
    requires
        p is Object,
        spec_plugin_params(p) == Ok::<PluginView, Seq<char>>(m),
    ensures
        lookup(p->Object_0, "track"@) == Some(JsonView::Str(m.track)),
        lookup(p->Object_0, "plugin"@) == Some(JsonView::Str(m.plugin)),
        lookup(p->Object_0, "param"@) == Some(JsonView::Str(m.param)),
        lookup(p->Object_0, "slot"@) == Some(JsonView::Number(NumberView::Unsigned(m.slot as u64)))
            || lookup(p->Object_0, "slot"@) == Some(JsonView::Number(NumberView::Signed(m.slot as i64))),
        lookup(p->Object_0, "value"@) matches Some(JsonView::Number(n)) && m.value == NumberView::Float(f64_form(n)),
{
    reveal_strlit("track");
    reveal_strlit("slot");
    reveal_strlit("plugin");
    reveal_strlit("param");
    reveal_strlit("value");
    let sch = plugin_schema();
    assert(keys_distinct(sch)) by {
        assert("plugin"@[1] != "param"@[1]);
        assert("track"@[0] != "slot"@[0] && "track"@[0] != "plugin"@[0] && "track"@[0] != "param"@[0] && "track"@[0] != "value"@[0]);
        assert("slot"@[0] != "plugin"@[0] && "slot"@[0] != "param"@[0] && "slot"@[0] != "value"@[0]);
        assert("plugin"@[0] != "value"@[0] && "param"@[0] != "value"@[0]);
    }
    let ms = p->Object_0;
    lemma_read_object_fields(ms, "PluginSetParamParams"@, sch);
    let vs = read_struct(p, "PluginSetParamParams"@, sch)->Ok_0;
    assert(sch[0].0 == "track"@ && sch[1].0 == "slot"@ && sch[2].0 == "plugin"@ && sch[3].0 == "param"@ && sch[4].0 == "value"@);
    assert(read_value(Kind::Text, lookup(p->Object_0, "track"@)->Some_0) == Ok::<ValueView, Seq<char>>(vs[0]));
    assert(read_value(Kind::Small, lookup(p->Object_0, "slot"@)->Some_0) == Ok::<ValueView, Seq<char>>(vs[1]));
    assert(read_value(Kind::Text, lookup(p->Object_0, "plugin"@)->Some_0) == Ok::<ValueView, Seq<char>>(vs[2]));
    assert(read_value(Kind::Text, lookup(p->Object_0, "param"@)->Some_0) == Ok::<ValueView, Seq<char>>(vs[3]));
    assert(read_value(Kind::Number, lookup(p->Object_0, "value"@)->Some_0) == Ok::<ValueView, Seq<char>>(vs[4]));
}

/// `mixer.set` parameters read from an object are the object's own
/// members: `track` and `param` are its strings of those names, and
/// `value` is its number `value` read as an `f64`.
pub proof fn law_mixer_params_are_the_members(p: JsonView, m: MixerView)
    requires
        p is Object,
        spec_mixer_params(p) == Ok::<MixerView, Seq<char>>(m),
    ensures
        lookup(p->Object_0, "track"@) == Some(JsonView::Str(m.track)),
        lookup(p->Object_0, "param"@) == Some(JsonView::Str(m.param)),
        lookup(p->Object_0, "value"@) matches Some(JsonView::Number(n)) && m.value == NumberView::Float(f64_form(n)),
{
    reveal_strlit("track");
    reveal_strlit("param");
    reveal_strlit("value");
    let sch = mixer_schema();
    assert(keys_distinct(sch)) by {
        assert("track"@[0] != "param"@[0] && "track"@[0] != "value"@[0] && "param"@[0] != "value"@[0]);
    }
    let ms = p->Object_0;
    lemma_read_object_fields(ms, "MixerSetParams"@, sch);
    let vs = read_struct(p, "MixerSetParams"@, sch)->Ok_0;
    assert(sch[0].0 == "track"@ && sch[1].0 == "param"@ && sch[2].0 == "value"@);
    assert(read_value(Kind::Text, lookup(p->Object_0, "track"@)->Some_0) == Ok::<ValueView, Seq<char>>(vs[0]));
    assert(read_value(Kind::Text, lookup(p->Object_0, "param"@)->Some_0) == Ok::<ValueView, Seq<char>>(vs[1]));
    assert(read_value(Kind::Number, lookup(p->Object_0, "value"@)->Some_0) == Ok::<ValueView, Seq<char>>(vs[2]));
}

/// The command of `command.exec` parameters read from an object is the
/// object's string member `id`.
pub proof fn law_command_is_the_member(p: JsonView, id: Seq<char>)
    requires
        p is Object,
        spec_command_params(p) == Ok::<Seq<char>, Seq<char>>(id),
    ensures
        lookup(p->Object_0, "id"@) == Some(JsonView::Str(id)),
{
    let sch = command_schema();
    assert(keys_distinct(sch));
    let ms = p->Object_0;
    lemma_read_object_fields(ms, "CommandExecParams"@, sch);
    let vs = read_struct(p, "CommandExecParams"@, sch)->Ok_0;
    assert(read_value(Kind::Text, lookup(p->Object_0, "id"@)->Some_0) == Ok::<ValueView, Seq<char>>(vs[0]));
}

} // verus!
