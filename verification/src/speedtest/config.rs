//! The configuration that the service gives out, an XML document.

use roxmltree::{Document, Error};

use vstd::prelude::*;

use crate::num::scalar::Scalar;
use crate::speedtest::xml_depth::{measure_depth, xml_depth};
use crate::text::same_text;
use crate::urls::opt_view;

verus! {

/// What the service knows of the client.
#[derive(Debug)]
pub struct SpeedtestClient {
    pub ip: String,
    pub isp: String,
    pub country: String,
    pub latitude: Scalar,
    pub longitude: Scalar,
}

#[derive(Debug)]
pub struct SpeedtestConfig {
    pub client: SpeedtestClient,
}

/// An attribute of an element.
#[derive(Debug)]
pub struct XmlAttribute {
    pub namespace: Option<String>,
    pub name: String,
    pub value: String,
}

/// A node of a document. Only an element has a tag that is not empty.
#[derive(Debug)]
pub struct XmlNode {
    pub tag: String,
    pub attributes: Vec<XmlAttribute>,
}

/// The values of an [`XmlAttribute`].
pub struct AttributeModel {
    pub namespace: Option<Seq<char>>,
    pub name: Seq<char>,
    pub value: Seq<char>,
}

/// The values of an [`XmlNode`].
pub struct NodeModel {
    pub tag: Seq<char>,
    pub attributes: Seq<AttributeModel>,
}

impl View for XmlAttribute {
    type V = AttributeModel;

    open spec fn view(&self) -> AttributeModel {
        AttributeModel {
            namespace: opt_view(self.namespace),
            name: self.name@,
            value: self.value@,
        }
    }
}

impl View for XmlNode {
    type V = NodeModel;

    open spec fn view(&self) -> NodeModel {
        NodeModel {
            tag: self.tag@,
            attributes: self.attributes@.map_values(|attribute: XmlAttribute| attribute@),
        }
    }
}

pub open spec fn nodes_of(list: Seq<XmlNode>) -> Seq<NodeModel> {
    list.map_values(|node: XmlNode| node@)
}

/// `roxmltree::Error`, why a text is not an XML document.
#[verifier::external_type_specification]
#[verifier::external_body]
pub struct ExXmlError(Error);

/// The nodes of the document that `roxmltree::Document::parse` makes of a text, in the order of
/// `descendants`, read through `tag_name` and `attributes`; nothing where the text is not XML.
pub uninterp spec fn parsed_xml(text: Seq<char>) -> Option<Seq<NodeModel>>;

/// How deeply elements may be nested. The configuration of the service has three levels.
pub const MAX_XML_DEPTH: usize = 100;

/// `roxmltree::Document::parse`, and what its nodes hold: the local name of each, and the
/// namespace, local name and value of each of its attributes. Which texts are XML is the crate's
/// to say: the contract names its answer, which depends on the text alone. The crate calls itself
/// for each level of nesting, so the levels are limited to what a stack holds.
#[verifier::external_body]
fn read_xml(text: &str) -> (r: Result<Vec<XmlNode>, Error>)
    requires
        xml_depth(text@) <= MAX_XML_DEPTH,
    ensures
        match r {
            Ok(nodes) => parsed_xml(text@) == Some(nodes_of(nodes@)),
            Err(_) => parsed_xml(text@) is None,
        },
{
    let document = Document::parse(text)?;
    Ok(document.descendants().map(|node| XmlNode {
        tag: node.tag_name().name().to_string(),
        attributes: node.attributes().map(|attribute| XmlAttribute {
            namespace: attribute.namespace().map(|uri| uri.to_string()),
            name: attribute.name().to_string(),
            value: attribute.value().to_string(),
        }).collect(),
    }).collect())
}

/// Why a configuration cannot be used.
#[derive(Debug)]
pub enum ConfigError {
    /// The elements are nested too deeply to be read.
    TooDeep,
    NotXml(Error),
    MissingClient,
    MissingAttribute(&'static str),
    InvalidValue(&'static str),
    NonFiniteValue(&'static str),
}

impl ConfigError {
    pub open spec fn text(self) -> Seq<char> {
        match self {
            ConfigError::TooDeep => "speedtest config XML is nested too deeply"@,
            ConfigError::NotXml(_) => "failed to parse speedtest config XML"@,
            ConfigError::MissingClient => "speedtest config missing <client> node"@,
            ConfigError::MissingAttribute(name) => "speedtest config <client> missing '"@ + name@
                + "' attribute"@,
            ConfigError::InvalidValue(name) => "speedtest config <client> has invalid '"@ + name@
                + "' value"@,
            ConfigError::NonFiniteValue(name) => "speedtest config <client> has non-finite '"@
                + name@ + "' value"@,
        }
    }

    pub fn message(&self) -> (r: String)
        ensures
            r@ == self.text(),
    {
        match self {
            ConfigError::TooDeep => "speedtest config XML is nested too deeply".to_owned(),
            ConfigError::NotXml(_) => "failed to parse speedtest config XML".to_owned(),
            ConfigError::MissingClient => "speedtest config missing <client> node".to_owned(),
            ConfigError::MissingAttribute(name) => {
                let mut out = "speedtest config <client> missing '".to_owned();
                out.append(name);
                out.append("' attribute");
                out
            },
            ConfigError::InvalidValue(name) => {
                let mut out = "speedtest config <client> has invalid '".to_owned();
                out.append(name);
                out.append("' value");
                out
            },
            ConfigError::NonFiniteValue(name) => {
                let mut out = "speedtest config <client> has non-finite '".to_owned();
                out.append(name);
                out.append("' value");
                out
            },
        }
    }
}

/// The first `client` element.
pub open spec fn client_node(nodes: Seq<NodeModel>) -> Option<NodeModel>
    decreases nodes.len(),
{
    if nodes.len() == 0 {
        None
    } else if nodes[0].tag == "client"@ {
        Some(nodes[0])
    } else {
        client_node(nodes.drop_first())
    }
}

/// The value of the attribute with the given name and no namespace.
pub open spec fn attribute_value(attributes: Seq<AttributeModel>, name: Seq<char>) -> Option<
    Seq<char>,
>
    decreases attributes.len(),
{
    if attributes.len() == 0 {
        None
    } else if attributes[0].namespace is None && attributes[0].name == name {
        Some(attributes[0].value)
    } else {
        attribute_value(attributes.drop_first(), name)
    }
}

fn read_attr(node: &XmlNode, name: &'static str) -> (r: Result<String, ConfigError>)
    ensures
        match r {
            Ok(value) => attribute_value(node@.attributes, name@) == Some(value@),
            Err(error) => attribute_value(node@.attributes, name@) is None && error
                == ConfigError::MissingAttribute(name),
        },
{
    let ghost all = node@.attributes;
    let mut i: usize = 0;
    assert(all.skip(0) =~= all);
    while i < node.attributes.len()
        invariant
            i <= node.attributes.len(),
            all == node@.attributes,
            attribute_value(all, name@) == attribute_value(all.skip(i as int), name@),
        decreases node.attributes.len() - i,
    {
        assert(all.skip(i as int)[0] == node.attributes[i as int]@);
        assert(all.skip(i as int).drop_first() =~= all.skip(i + 1));
        if node.attributes[i].namespace.is_none() && same_text(
            node.attributes[i].name.as_str(),
            name,
        ) {
            return Ok(node.attributes[i].value.clone());
        }
        i = i + 1;
    }
    Err(ConfigError::MissingAttribute(name))
}

/// What stands in the `client` element, with the coordinates as they are written there.
#[derive(Debug)]
pub struct ClientAttributes {
    pub ip: String,
    pub isp: String,
    pub country: String,
    pub latitude: String,
    pub longitude: Option<String>,
}

/// Whether the attributes are those of the `client` element among the nodes.
pub open spec fn are_of_client(nodes: Seq<NodeModel>, client: ClientAttributes) -> bool {
    client_node(nodes) matches Some(node) && {
        &&& attribute_value(node.attributes, "ip"@) == Some(client.ip@)
        &&& attribute_value(node.attributes, "isp"@) == Some(client.isp@)
        &&& attribute_value(node.attributes, "country"@) == Some(client.country@)
        &&& attribute_value(node.attributes, "lat"@) == Some(client.latitude@)
        &&& attribute_value(node.attributes, "lon"@) == opt_view(client.longitude)
    }
}

/// The first thing that is missing from the nodes.
pub open spec fn missing(nodes: Seq<NodeModel>) -> Option<ConfigError> {
    match client_node(nodes) {
        None => Some(ConfigError::MissingClient),
        Some(node) => if attribute_value(node.attributes, "ip"@) is None {
            Some(ConfigError::MissingAttribute("ip"))
        } else if attribute_value(node.attributes, "isp"@) is None {
            Some(ConfigError::MissingAttribute("isp"))
        } else if attribute_value(node.attributes, "country"@) is None {
            Some(ConfigError::MissingAttribute("country"))
        } else if attribute_value(node.attributes, "lat"@) is None {
            Some(ConfigError::MissingAttribute("lat"))
        } else {
            None
        },
    }
}

fn read_client(node: &XmlNode) -> (r: Result<ClientAttributes, ConfigError>)
    ensures
        match r {
            Ok(client) => {
                &&& attribute_value(node@.attributes, "ip"@) == Some(client.ip@)
                &&& attribute_value(node@.attributes, "isp"@) == Some(client.isp@)
                &&& attribute_value(node@.attributes, "country"@) == Some(client.country@)
                &&& attribute_value(node@.attributes, "lat"@) == Some(client.latitude@)
                &&& attribute_value(node@.attributes, "lon"@) == opt_view(client.longitude)
            },
            Err(error) => error == if attribute_value(node@.attributes, "ip"@) is None {
                ConfigError::MissingAttribute("ip")
            } else if attribute_value(node@.attributes, "isp"@) is None {
                ConfigError::MissingAttribute("isp")
            } else if attribute_value(node@.attributes, "country"@) is None {
                ConfigError::MissingAttribute("country")
            } else {
                ConfigError::MissingAttribute("lat")
            } && (attribute_value(node@.attributes, "ip"@) is None || attribute_value(
                node@.attributes,
                "isp"@,
            ) is None || attribute_value(node@.attributes, "country"@) is None || attribute_value(
                node@.attributes,
                "lat"@,
            ) is None),
        },
{
    let ip = match read_attr(node, "ip") {
        Ok(value) => value,
        Err(error) => {
            return Err(error);
        },
    };
    let isp = match read_attr(node, "isp") {
        Ok(value) => value,
        Err(error) => {
            return Err(error);
        },
    };
    let country = match read_attr(node, "country") {
        Ok(value) => value,
        Err(error) => {
            return Err(error);
        },
    };
    let latitude = match read_attr(node, "lat") {
        Ok(value) => value,
        Err(error) => {
            return Err(error);
        },
    };
    let longitude = match read_attr(node, "lon") {
        Ok(value) => Some(value),
        Err(_) => None,
    };
    Ok(ClientAttributes { ip, isp, country, latitude, longitude })
}

/// Finds the client among the nodes of a document.
pub fn find_client(nodes: &Vec<XmlNode>) -> (r: Result<ClientAttributes, ConfigError>)
    ensures
        match r {
            Ok(client) => missing(nodes_of(nodes@)) is None && are_of_client(
                nodes_of(nodes@),
                client,
            ),
            Err(error) => missing(nodes_of(nodes@)) == Some(error),
        },
{
    let ghost all = nodes_of(nodes@);
    let mut i: usize = 0;
    assert(all.skip(0) =~= all);
    while i < nodes.len()
        invariant
            i <= nodes.len(),
            all == nodes_of(nodes@),
            client_node(all) == client_node(all.skip(i as int)),
        decreases nodes.len() - i,
    {
        assert(all.skip(i as int)[0] == nodes[i as int]@);
        assert(all.skip(i as int).drop_first() =~= all.skip(i + 1));
        if same_text(nodes[i].tag.as_str(), "client") {
            return read_client(&nodes[i]);
        }
        i = i + 1;
    }
    Err(ConfigError::MissingClient)
}

/// Reads the client out of a configuration, with the coordinates as they are written there.
pub fn read_config_xml(xml: &str) -> (r: Result<ClientAttributes, ConfigError>)
    ensures
        if xml_depth(xml@) > MAX_XML_DEPTH {
            r matches Err(error) && error is TooDeep
        } else {
            match parsed_xml(xml@) {
                None => r matches Err(error) && error is NotXml,
                Some(nodes) => match r {
                    Ok(client) => missing(nodes) is None && are_of_client(nodes, client),
                    Err(error) => missing(nodes) == Some(error),
                },
            }
        },
{
    if measure_depth(xml) > MAX_XML_DEPTH {
        return Err(ConfigError::TooDeep);
    }
    match read_xml(xml) {
        Ok(nodes) => find_client(&nodes),
        Err(error) => Err(ConfigError::NotXml(error)),
    }
}

/// Why a coordinate that was read as `number` cannot be used.
pub open spec fn coordinate_fault(name: &'static str, number: Option<Scalar>) -> Option<
    ConfigError,
> {
    match number {
        None => Some(ConfigError::InvalidValue(name)),
        Some(value) => if value.finite() {
            None
        } else {
            Some(ConfigError::NonFiniteValue(name))
        },
    }
}

fn check_coordinate(name: &'static str, number: Option<Scalar>) -> (r: Result<Scalar, ConfigError>)
    ensures
        match r {
            Ok(value) => number == Some(value) && coordinate_fault(name, number) is None,
            Err(error) => coordinate_fault(name, number) == Some(error),
        },
{
    match number {
        None => Err(ConfigError::InvalidValue(name)),
        Some(value) => if value.is_finite() {
            Ok(value)
        } else {
            Err(ConfigError::NonFiniteValue(name))
        },
    }
}

/// Completes a configuration. `latitude` and `longitude` are the numbers that the coordinates are
/// written for, where they are numbers.
pub fn finish_config(
    client: ClientAttributes,
    latitude: Option<Scalar>,
    longitude: Option<Scalar>,
) -> (r: Result<SpeedtestConfig, ConfigError>)
    ensures
        match r {
            Ok(config) => {
                &&& config.client.ip == client.ip
                &&& config.client.isp == client.isp
                &&& config.client.country == client.country
                &&& latitude == Some(config.client.latitude)
                &&& longitude == Some(config.client.longitude)
                &&& config.client.latitude.finite()
                &&& config.client.longitude.finite()
                &&& client.longitude is Some
            },
            Err(error) => match coordinate_fault("lat", latitude) {
                Some(fault) => error == fault,
                None => if client.longitude is None {
                    error == ConfigError::MissingAttribute("lon")
                } else {
                    coordinate_fault("lon", longitude) == Some(error)
                },
            },
        },
{
    let latitude = match check_coordinate("lat", latitude) {
        Ok(value) => value,
        Err(error) => {
            return Err(error);
        },
    };
    if client.longitude.is_none() {
        return Err(ConfigError::MissingAttribute("lon"));
    }
    match check_coordinate("lon", longitude) {
        Ok(value) => Ok(
            SpeedtestConfig {
                client: SpeedtestClient {
                    ip: client.ip,
                    isp: client.isp,
                    country: client.country,
                    latitude,
                    longitude: value,
                },
            },
        ),
        Err(error) => Err(error),
    }
}

/// The client is the first element of that name, whatever stands around it.
pub proof fn the_client_is_the_first_of_its_name(node: NodeModel, others: Seq<NodeModel>)
    ensures
        client_node(Seq::empty()) is None,
        node.tag == "client"@ ==> client_node(seq![node] + others) == Some(node),
        node.tag != "client"@ ==> client_node(seq![node] + others) == client_node(others),
{
    assert((seq![node] + others)[0] == node);
    assert((seq![node] + others).drop_first() =~= others);
}

/// An attribute is found by its name, among those without a namespace.
pub proof fn attributes_are_found_by_their_name(
    first: AttributeModel,
    others: Seq<AttributeModel>,
    name: Seq<char>,
)
    ensures
        attribute_value(Seq::empty(), name) is None,
        first.namespace is None && first.name == name ==> attribute_value(
            seq![first] + others,
            name,
        ) == Some(first.value),
        first.namespace is Some || first.name != name ==> attribute_value(
            seq![first] + others,
            name,
        ) == attribute_value(others, name),
{
    assert((seq![first] + others)[0] == first);
    assert((seq![first] + others).drop_first() =~= others);
}

/// What is known of the client is what the attributes of its element say.
pub proof fn the_client_is_as_its_element_says(nodes: Seq<NodeModel>, client: ClientAttributes)
    requires
        are_of_client(nodes, client),
    ensures
        client_node(nodes) matches Some(node) && {
            &&& attribute_value(node.attributes, "ip"@) == Some(client.ip@)
            &&& attribute_value(node.attributes, "isp"@) == Some(client.isp@)
            &&& attribute_value(node.attributes, "country"@) == Some(client.country@)
            &&& attribute_value(node.attributes, "lat"@) == Some(client.latitude@)
            &&& attribute_value(node.attributes, "lon"@) == opt_view(client.longitude)
        },
{
}

/// A coordinate is taken where it is a finite number, and else refused by its name.
pub proof fn coordinates_are_finite(name: &'static str, value: Scalar)
    ensures
        value.finite() ==> coordinate_fault(name, Some(value)) is None,
        !value.finite() ==> coordinate_fault(name, Some(value)) == Some(
            ConfigError::NonFiniteValue(name),
        ),
        coordinate_fault(name, None) == Some(ConfigError::InvalidValue(name)),
{
}

} // verus!
