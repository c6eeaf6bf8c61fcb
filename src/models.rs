use vstd::prelude::*;

verus! {

/// An error carrying a human-readable message.
#[derive(Debug, Clone)]
pub struct AppError {
    message: String,
}

impl View for AppError {
    type V = Seq<char>;

    closed spec fn view(&self) -> Seq<char> {
        self.message@
    }
}

impl AppError {
    pub fn new(message: String) -> (r: AppError)
        ensures
            r@ == message@,
    {
        AppError { message }
    }

    pub fn message(&self) -> (r: &str)
        ensures
            r@ == self@,
    {
        self.message.as_str()
    }
}

/// A category that an application belongs to in the catalog.
#[derive(Debug, Clone)]
pub struct AppCategory {
    pub category_id: i32,
    pub category_name: String,
}

/// An application as described by the catalog.
#[derive(Debug, Clone)]
pub struct AppInfo {
    pub app_id: String,
    pub app_category: AppCategory,
    pub app_name: String,
    pub app_level: u8,
}

/// The kind of a communication method as described by the catalog.
#[derive(Debug, Clone)]
pub struct CommunicationMethodType {
    pub com_method_type_id: i32,
    pub com_method_type_name: String,
}

/// The kind-specific details of a communication method in the catalog.
#[derive(Debug, Clone)]
pub struct CommunicationMethodInfo {
    pub com_method_id: i32,
    pub kafka_topic: Option<String>,
    pub rest_api_method: Option<String>,
    pub rest_api_endpoint: Option<String>,
}

/// One catalog record: a link from one application to another.
#[derive(Debug, Clone)]
pub struct AppConnectInfo {
    pub app_start: AppInfo,
    pub app_end: AppInfo,
    pub communication_method_type: CommunicationMethodType,
    pub communication_method_info: CommunicationMethodInfo,
}

/// A communication link between two applications, with the names of the
/// business routes it takes part in.
#[derive(Debug, Clone)]
pub enum CommunicationMethod {
    RESTAPI { method: String, endpoint: String, route_names: Vec<String> },
    MQ { queue_name: String, route_names: Vec<String> },
    Kafka { topic: String, route_names: Vec<String> },
    GRPC { service_name: String, route_names: Vec<String> },
    FileTransfer { file_path: String, route_names: Vec<String> },
    Soap { wsdl_url: String, route_names: Vec<String> },
}

impl CommunicationMethod {
    /// The route names of the link, whatever its kind.
    pub open spec fn route_seq(&self) -> Seq<String> {
        match self {
            CommunicationMethod::RESTAPI { route_names, .. } => route_names@,
            CommunicationMethod::MQ { route_names, .. } => route_names@,
            CommunicationMethod::Kafka { route_names, .. } => route_names@,
            CommunicationMethod::GRPC { route_names, .. } => route_names@,
            CommunicationMethod::FileTransfer { route_names, .. } => route_names@,
            CommunicationMethod::Soap { route_names, .. } => route_names@,
        }
    }

    /// The link takes part in the route named `tag`.
    pub open spec fn has_route(&self, tag: Seq<char>) -> bool {
        exists|i: int| 0 <= i < self.route_seq().len() && (#[trigger] self.route_seq()[i])@ == tag
    }

    /// The human label of the link's kind.
    pub open spec fn kind_label(&self) -> Seq<char> {
        match self {
            CommunicationMethod::RESTAPI { .. } => "REST API"@,
            CommunicationMethod::MQ { .. } => "MQ"@,
            CommunicationMethod::Kafka { .. } => "Kafka"@,
            CommunicationMethod::GRPC { .. } => "gRPC"@,
            CommunicationMethod::FileTransfer { .. } => "File Transfer"@,
            CommunicationMethod::Soap { .. } => "SOAP"@,
        }
    }

    pub fn route_names(&self) -> (r: &Vec<String>)
        ensures
            r@ == self.route_seq(),
    {
        match self {
            CommunicationMethod::RESTAPI { route_names, .. } => route_names,
            CommunicationMethod::MQ { route_names, .. } => route_names,
            CommunicationMethod::Kafka { route_names, .. } => route_names,
            CommunicationMethod::GRPC { route_names, .. } => route_names,
            CommunicationMethod::FileTransfer { route_names, .. } => route_names,
            CommunicationMethod::Soap { route_names, .. } => route_names,
        }
    }

    pub fn communication_type(&self) -> (r: String)
        ensures
            r@ == self.kind_label(),
    {
        match self {
            CommunicationMethod::RESTAPI { .. } => "REST API".to_string(),
            CommunicationMethod::MQ { .. } => "MQ".to_string(),
            CommunicationMethod::Kafka { .. } => "Kafka".to_string(),
            CommunicationMethod::GRPC { .. } => "gRPC".to_string(),
            CommunicationMethod::FileTransfer { .. } => "File Transfer".to_string(),
            CommunicationMethod::Soap { .. } => "SOAP".to_string(),
        }
    }

    /// Whether the link takes part in the route named `tag`.
    pub fn carries_route(&self, tag: &String) -> (r: bool)
        ensures
            r == self.has_route(tag@),
    {
        let names = self.route_names();
        let mut i: usize = 0;
        while i < names.len()
            invariant
                names@ == self.route_seq(),
                0 <= i <= names.len(),
                forall|j: int| 0 <= j < i ==> (#[trigger] names@[j])@ != tag@,
            decreases names.len() - i,
        {
            if names[i] == *tag {
                return true;
            }
            i = i + 1;
        }
        false
    }
}

/// An application: a node of the route graph.
#[derive(Debug, Clone)]
pub struct AppInformation {
    name: String,
}

impl View for AppInformation {
    type V = Seq<char>;

    closed spec fn view(&self) -> Seq<char> {
        self.name@
    }
}

impl AppInformation {
    pub fn new(name: String) -> (r: Self)
        ensures
            r@ == name@,
    {
        Self { name }
    }

    pub fn name(&self) -> (r: &str)
        ensures
            r@ == self@,
    {
        self.name.as_str()
    }
}

} // verus!
