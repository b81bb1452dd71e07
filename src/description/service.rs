//! Service descriptions: a service's actions and state variables.

use vstd::prelude::*;
use crate::description::{
    optional_text_events, spec_version_events, write_optional_text, write_spec_version,
};
use crate::error::Error;
use crate::xml::{text_element_events, xmlns_name, XmlEvent, XmlWriter};
use crate::SpecVersion;

verus! {

/// The namespace of service descriptions.
pub const XML_NS_SERVICE: &'static str = "urn:schemas-upnp-org:service-1-0";

#[derive(Clone, Copy, Debug, PartialEq, Eq, Structural)]
pub enum Direction {
    In,
    Out,
}

#[derive(Clone, Debug)]
pub struct Argument {
    pub name: String,
    pub direction: Direction,
    pub return_value: bool,
    pub related_state_variable: String,
}

#[derive(Clone, Debug)]
pub struct Action {
    pub name: String,
    pub argument_list: Vec<Argument>,
}

#[derive(Clone, Debug)]
pub enum AllowedValue {
    List { values: Vec<String> },
    Range { minimum: String, maximum: String, step: Option<String> },
}

#[derive(Clone, Debug)]
pub struct StateVariable {
    pub send_events: bool,
    pub name: String,
    pub data_type: String,
    pub default_value: Option<String>,
    pub allowed_values: Option<AllowedValue>,
}

#[derive(Clone, Debug)]
pub struct Spcd {
    pub spec_version: SpecVersion,
    pub action_list: Vec<Action>,
    pub service_state_table: Vec<StateVariable>,
}

pub open spec fn argument_events(a: Argument) -> Seq<XmlEvent> {
    seq![XmlEvent::Start("argument"@, Seq::empty())] + text_element_events("name"@, a.name@)
        + text_element_events(
        "direction"@,
        match a.direction {
            Direction::In => "in"@,
            Direction::Out => "out"@,
        },
    ) + if a.return_value {
        seq![XmlEvent::Start("retval"@, Seq::empty()), XmlEvent::End("retval"@)]
    } else {
        Seq::empty()
    } + text_element_events("relatedStateVariable"@, a.related_state_variable@) + seq![
        XmlEvent::End("argument"@),
    ]
}

pub open spec fn arguments_events(s: Seq<Argument>) -> Seq<XmlEvent>
    decreases s.len(),
{
    if s.len() == 0 {
        Seq::empty()
    } else {
        arguments_events(s.drop_last()) + argument_events(s.last())
    }
}

pub open spec fn action_events(a: Action) -> Seq<XmlEvent> {
    seq![XmlEvent::Start("action"@, Seq::empty())] + text_element_events("name"@, a.name@) + if a.argument_list@.len() == 0 {
        Seq::empty()
    } else {
        seq![XmlEvent::Start("argumentList"@, Seq::empty())] + arguments_events(a.argument_list@)
            + seq![XmlEvent::End("argumentList"@)]
    } + seq![XmlEvent::End("action"@)]
}

pub open spec fn actions_events(s: Seq<Action>) -> Seq<XmlEvent>
    decreases s.len(),
{
    if s.len() == 0 {
        Seq::empty()
    } else {
        actions_events(s.drop_last()) + action_events(s.last())
    }
}

pub open spec fn values_events(s: Seq<String>) -> Seq<XmlEvent>
    decreases s.len(),
{
    if s.len() == 0 {
        Seq::empty()
    } else {
        values_events(s.drop_last()) + text_element_events("allowedValue"@, s.last()@)
    }
}

pub open spec fn allowed_events(a: AllowedValue) -> Seq<XmlEvent> {
    match a {
        AllowedValue::List { values } => seq![XmlEvent::Start("allowedValueList"@, Seq::empty())]
            + values_events(values@) + seq![XmlEvent::End("allowedValueList"@)],
        AllowedValue::Range { minimum, maximum, step } => seq![
            XmlEvent::Start("allowedValueRange"@, Seq::empty()),
        ] + text_element_events("minimum"@, minimum@) + text_element_events("maximum"@, maximum@)
            + optional_text_events("step"@, step) + seq![XmlEvent::End("allowedValueRange"@)],
    }
}

pub open spec fn variable_events(v: StateVariable) -> Seq<XmlEvent> {
    seq![
        XmlEvent::Start(
            "stateVariable"@,
            seq![
                (
                    "sendEvents"@,
                    if v.send_events {
                        "yes"@
                    } else {
                        "no"@
                    },
                ),
            ],
        ),
    ] + text_element_events("name"@, v.name@) + text_element_events("dataType"@, v.data_type@)
        + optional_text_events("defaultValue"@, v.default_value) + match v.allowed_values {
        Some(a) => allowed_events(a),
        None => Seq::empty(),
    } + seq![XmlEvent::End("stateVariable"@)]
}

pub open spec fn variables_events(s: Seq<StateVariable>) -> Seq<XmlEvent>
    decreases s.len(),
{
    if s.len() == 0 {
        Seq::empty()
    } else {
        variables_events(s.drop_last()) + variable_events(s.last())
    }
}

/// The events of a service description's `scpd` element.
pub open spec fn spcd_events(s: Spcd) -> Seq<XmlEvent> {
    seq![XmlEvent::Start("scpd"@, seq![(xmlns_name(None), XML_NS_SERVICE@)])] + spec_version_events(
        s.spec_version,
    ) + if s.action_list@.len() == 0 {
        Seq::empty()
    } else {
        seq![XmlEvent::Start("actionList"@, Seq::empty())] + actions_events(s.action_list@) + seq![
            XmlEvent::End("actionList"@),
        ]
    } + seq![XmlEvent::Start("serviceStateTable"@, Seq::empty())] + variables_events(
        s.service_state_table@,
    ) + seq![XmlEvent::End("serviceStateTable"@), XmlEvent::End("scpd"@)]
}

pub fn write_argument(w: &mut XmlWriter, a: &Argument) -> (r: Result<(), Error>)
    ensures
        r is Ok,
        final(w).log() == old(w).log() + argument_events(*a),
{
    let e = w.start_element("argument")?;
    w.text_element("name", a.name.as_str())?;
    let direction = match a.direction {
        Direction::In => "in",
        Direction::Out => "out",
    };
    w.text_element("direction", direction)?;
    if a.return_value {
        w.element("retval")?;
    }
    w.text_element("relatedStateVariable", a.related_state_variable.as_str())?;
    let r = e.end(w);
    assert(w.log() =~= old(w).log() + argument_events(*a));
    r
}

pub fn write_action(w: &mut XmlWriter, a: &Action) -> (r: Result<(), Error>)
    ensures
        r is Ok,
        final(w).log() == old(w).log() + action_events(*a),
{
    let e = w.start_element("action")?;
    w.text_element("name", a.name.as_str())?;
    if a.argument_list.len() > 0 {
        let list = w.start_element("argumentList")?;
        let ghost start = w.log();
        let mut i: usize = 0;
        while i < a.argument_list.len()
            invariant
                i <= a.argument_list@.len(),
                w.log() == start + arguments_events(a.argument_list@.subrange(0, i as int)),
            decreases a.argument_list.len() - i,
        {
            write_argument(w, &a.argument_list[i])?;
            assert(a.argument_list@.subrange(0, i + 1).drop_last() =~= a.argument_list@.subrange(0, i as int));
            i = i + 1;
            assert(w.log() =~= start + arguments_events(a.argument_list@.subrange(0, i as int)));
        }
        assert(a.argument_list@.subrange(0, i as int) =~= a.argument_list@);
        list.end(w)?;
    }
    let r = e.end(w);
    assert(w.log() =~= old(w).log() + action_events(*a));
    r
}

pub fn write_allowed_value(w: &mut XmlWriter, a: &AllowedValue) -> (r: Result<(), Error>)
    ensures
        r is Ok,
        final(w).log() == old(w).log() + allowed_events(*a),
{
    match a {
        AllowedValue::List { values } => {
            let list = w.start_element("allowedValueList")?;
            let ghost start = w.log();
            let mut i: usize = 0;
            while i < values.len()
                invariant
                    i <= values@.len(),
                    w.log() == start + values_events(values@.subrange(0, i as int)),
                decreases values.len() - i,
            {
                w.text_element("allowedValue", values[i].as_str())?;
                assert(values@.subrange(0, i + 1).drop_last() =~= values@.subrange(0, i as int));
                i = i + 1;
                assert(w.log() =~= start + values_events(values@.subrange(0, i as int)));
            }
            assert(values@.subrange(0, i as int) =~= values@);
            let r = list.end(w);
            assert(w.log() =~= old(w).log() + allowed_events(*a));
            r
        },
        AllowedValue::Range { minimum, maximum, step } => {
            let range = w.start_element("allowedValueRange")?;
            w.text_element("minimum", minimum.as_str())?;
            w.text_element("maximum", maximum.as_str())?;
            write_optional_text(w, "step", step)?;
            let r = range.end(w);
            assert(w.log() =~= old(w).log() + allowed_events(*a));
            r
        },
    }
}

pub fn write_state_variable(w: &mut XmlWriter, v: &StateVariable) -> (r: Result<(), Error>)
    ensures
        r is Ok,
        final(w).log() == old(w).log() + variable_events(*v),
{
    let flag = if v.send_events { "yes" } else { "no" };
    let mut attrs: Vec<(String, String)> = Vec::new();
    attrs.push(("sendEvents".to_string(), flag.to_string()));
    assert(crate::xml::attrs_view(attrs@) =~= seq![("sendEvents"@, flag@)]);
    let e = w.start_element_with("stateVariable", &attrs)?;
    w.text_element("name", v.name.as_str())?;
    w.text_element("dataType", v.data_type.as_str())?;
    write_optional_text(w, "defaultValue", &v.default_value)?;
    if let Some(allowed) = &v.allowed_values {
        write_allowed_value(w, allowed)?;
    }
    let r = e.end(w);
    assert(w.log() =~= old(w).log() + variable_events(*v));
    r
}

/// Writes the `scpd` element of a service description.
pub fn write_spcd(w: &mut XmlWriter, s: &Spcd) -> (r: Result<(), Error>)
    ensures
        r is Ok,
        final(w).log() == old(w).log() + spcd_events(*s),
{
    let root = w.start_ns_element("scpd", XML_NS_SERVICE, None)?;
    write_spec_version(w, s.spec_version)?;
    if s.action_list.len() > 0 {
        let list = w.start_element("actionList")?;
        let ghost start = w.log();
        let mut i: usize = 0;
        while i < s.action_list.len()
            invariant
                i <= s.action_list@.len(),
                w.log() == start + actions_events(s.action_list@.subrange(0, i as int)),
            decreases s.action_list.len() - i,
        {
            write_action(w, &s.action_list[i])?;
            assert(s.action_list@.subrange(0, i + 1).drop_last() =~= s.action_list@.subrange(0, i as int));
            i = i + 1;
            assert(w.log() =~= start + actions_events(s.action_list@.subrange(0, i as int)));
        }
        assert(s.action_list@.subrange(0, i as int) =~= s.action_list@);
        list.end(w)?;
    }
    let table = w.start_element("serviceStateTable")?;
    let ghost start = w.log();
    let mut i: usize = 0;
    while i < s.service_state_table.len()
        invariant
            i <= s.service_state_table@.len(),
            w.log() == start + variables_events(s.service_state_table@.subrange(0, i as int)),
        decreases s.service_state_table.len() - i,
    {
        write_state_variable(w, &s.service_state_table[i])?;
        assert(s.service_state_table@.subrange(0, i + 1).drop_last() =~= s.service_state_table@.subrange(0, i as int));
        i = i + 1;
        assert(w.log() =~= start + variables_events(s.service_state_table@.subrange(0, i as int)));
    }
    assert(s.service_state_table@.subrange(0, i as int) =~= s.service_state_table@);
    table.end(w)?;
    let r = root.end(w);
    assert(w.log() =~= old(w).log() + spcd_events(*s));
    r
}

/// The bytes of a service description document: the XML declaration and the `scpd` element.
pub fn to_writer(root: &Spcd) -> (r: Result<Vec<u8>, Error>)
    ensures
        r is Ok,
{
    let mut w = XmlWriter::new();
    w.start()?;
    write_spcd(&mut w, root)?;
    Ok(w.into_bytes())
}

} // verus!
