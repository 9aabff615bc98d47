//! What is served down an environment channel.
//!
//! The whole of the routing: a connection tagged `Mcp` goes to this
//! workspace's server as the environment the channel belongs to, and one
//! tagged `Auth` goes to the workspace's auth proxy. There is no third case
//! and no default.

use vstd::prelude::*;
use crate::environment::EnvironmentId;

verus! {

/// What a container can ask for.
#[derive(Debug, Clone, Copy, PartialEq, Eq, Structural)]
pub enum Service {
    Mcp,
    Auth,
}

/// Where a connection goes.
#[derive(Debug, PartialEq, Eq)]
pub enum Route {
    /// To the workspace's server, as this environment.
    Mcp(EnvironmentId),
    /// To the auth proxy.
    Auth,
    /// Nowhere: the proxy was never opened.
    Dropped,
}

/// What the workspace serves.
#[derive(Debug, Clone, Copy, PartialEq, Eq, Structural)]
pub struct IdeChannelServices {
    /// The auth proxy is up. It may be off, or have failed to bind.
    pub auth_proxy: bool,
}

impl IdeChannelServices {
    /// Whether a service is there to be asked for.
    pub open spec fn offers(&self, service: Service) -> bool {
        service == Service::Mcp || self.auth_proxy
    }

    /// Whether a service is there. The server always is; saying that the proxy
    /// is not is what stops a probe from failing an environment over a door
    /// that was never opened.
    pub fn serves(&self, service: Service) -> (r: bool)
        ensures
            r == self.offers(service),
    {
        match service {
            Service::Mcp => true,
            Service::Auth => self.auth_proxy,
        }
    }

    /// Where a connection goes. The environment comes from the channel, never
    /// from the caller.
    pub fn accept(&self, env: &EnvironmentId, service: Service) -> (out: Route)
        ensures
            routes(*self, *env, service, out),
    {
        match service {
            Service::Mcp => Route::Mcp(env.clone()),
            Service::Auth => if self.auth_proxy {
                Route::Auth
            } else {
                Route::Dropped
            },
        }
    }
}

/// Where a connection goes.
pub open spec fn routes(services: IdeChannelServices, env: EnvironmentId, service: Service, out: Route) -> bool {
    &&& out == match service {
        Service::Mcp => Route::Mcp(env),
        Service::Auth => if services.auth_proxy {
            Route::Auth
        } else {
            Route::Dropped
        },
    }
    &&& out == Route::Dropped <==> !services.offers(service)
}

/// A connection to the server is served as the environment its channel belongs
/// to and no other; one to the proxy reaches it where it is up and is dropped
/// where it is not; neither is ever taken for the other.
pub proof fn a_channel_speaks_for_its_own_environment(
    services: IdeChannelServices,
    env: EnvironmentId,
    service: Service,
    out: Route,
)
    requires
        routes(services, env, service, out),
    ensures
        service == Service::Mcp ==> (out matches Route::Mcp(to) && to@ == env@),
        service == Service::Auth && services.auth_proxy ==> out == Route::Auth,
        service == Service::Auth && !services.auth_proxy ==> out == Route::Dropped,
        services.offers(service) <==> service == Service::Mcp || services.auth_proxy,
        out == Route::Dropped <==> !services.offers(service),
{
}

} // verus!
