//! The web interface's requests and answers: deploying an app and asking for a
//! service's URL, and the state the handlers share.
use vstd::prelude::*;
use crate::app::{AppManager, AppError, app_wf, services_map, deploy_effect, app_env, app_ports, single_service, opt_view};
use crate::containers::{RuntimeError, runtime_error_text};
use crate::health::HealthMonitor;
use crate::node::NodeManager;
use crate::text::owned;

verus! {

/// The state the web handlers share.
pub struct AppState {
    pub node_manager: NodeManager,
    pub app_manager: AppManager,
    pub health_monitor: Option<HealthMonitor>,
}

/// A request to deploy an app, optionally as a service.
#[derive(Debug)]
pub struct DeployRequest {
    pub image: String,
    pub name: String,
    pub service: Option<String>,
}

/// The answer to a deployment request.
#[derive(Debug)]
pub struct DeployResponse {
    pub success: bool,
    pub container_id: Option<String>,
    pub error: Option<String>,
}

/// A request for the URL of a service.
#[derive(Debug)]
pub struct ServiceUrlRequest {
    pub service_name: String,
}

/// The answer to a service URL request.
#[derive(Debug)]
pub struct ServiceUrlResponse {
    pub success: bool,
    pub url: Option<String>,
    pub error: Option<String>,
}

/// The text of an application error.
pub open spec fn app_error_text(e: AppError) -> Seq<char> {
    match e {
        AppError::NoRuntime => "No container runtime available"@,
        AppError::ServiceNotFound => "Service not found"@,
        AppError::Runtime(r) => runtime_error_text(r),
    }
}

impl AppError {
    /// The text of the error (see [`app_error_text`]).
    pub fn message(&self) -> (r: String)
        ensures
            r@ == app_error_text(*self),
    {
        match self {
            AppError::NoRuntime => owned("No container runtime available"),
            AppError::ServiceNotFound => owned("Service not found"),
            AppError::Runtime(e) => e.message(),
        }
    }
}

/// The optional text as characters.
pub open spec fn opt_chars(o: Option<String>) -> Option<Seq<char>> {
    match o {
        Some(s) => Some(s@),
        None => None,
    }
}

/// The answer to a deployment: the container id on success, the error's text otherwise.
pub fn deploy_response(r: Result<String, AppError>) -> (resp: DeployResponse)
    ensures
        match r {
            Ok(id) => resp.success && opt_chars(resp.container_id) == Some(id@) && resp.error is None,
            Err(e) => !resp.success && resp.container_id is None && opt_chars(resp.error) == Some(app_error_text(e)),
        },
{
    match r {
        Ok(id) => DeployResponse { success: true, container_id: Some(id), error: None },
        Err(e) => DeployResponse { success: false, container_id: None, error: Some(e.message()) },
    }
}

/// The answer to a service URL request: the URL if the service has a healthy
/// endpoint, a fixed error otherwise.
pub fn service_url_response(url: Option<String>) -> (resp: ServiceUrlResponse)
    ensures
        match url {
            Some(u) => resp.success && opt_chars(resp.url) == Some(u@) && resp.error is None,
            None => !resp.success && resp.url is None
                && opt_chars(resp.error) == Some("Service not found or no healthy endpoints available"@),
        },
{
    match url {
        Some(u) => ServiceUrlResponse { success: true, url: Some(u), error: None },
        None => ServiceUrlResponse {
            success: false,
            url: None,
            error: Some(owned("Service not found or no healthy endpoints available")),
        },
    }
}

impl AppState {
    /// Handles a deployment request: the app is deployed with its default
    /// environment and ports, as a service when one is named.
    pub fn deploy(&mut self, req: &DeployRequest) -> (resp: DeployResponse)
        requires
            app_wf(&old(self).app_manager),
        ensures
            app_wf(&final(self).app_manager),
            match old(self).app_manager.runtime {
                None => !resp.success && opt_chars(resp.error) == Some("No container runtime available"@),
                Some(_) => resp.success && resp.container_id is Some && ({
                    let id = resp.container_id->Some_0@;
                    &&& exists|t: i64| #[trigger] deploy_effect(&old(self).app_manager, &final(self).app_manager, id, t,
                            req.image@, req.name@, "local"@, opt_chars(req.service), app_env(req.name@, None),
                            app_ports(None))
                    &&& services_map(&final(self).app_manager) == match req.service {
                            Some(d) => services_map(&old(self).app_manager).insert(req.name@, single_service(req.name@, d@, id)),
                            None => services_map(&old(self).app_manager),
                        }
                }),
            },
    {
        let domain: Option<&str> = match &req.service {
            Some(d) => Some(d.as_str()),
            None => None,
        };
        assert(opt_view(domain) == opt_chars(req.service));
        let r = self.app_manager.deploy_app(req.image.as_str(), req.name.as_str(), domain, None, None);
        deploy_response(r)
    }
}

} // verus!
