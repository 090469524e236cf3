//! Cloud providers: the AWS provider's regions and zones, and the instances,
//! disks and load balancers it reports.
use vstd::prelude::*;
use crate::text::{owned, push_str, push_decimal, decimal, str_eq, concat};
use crate::containers::{new_uuid, unix_now};

verus! {

/// Supported cloud providers.
#[derive(Debug, Clone, Copy, PartialEq, Eq, Structural)]
pub enum CloudProvider {
    AWS,
    Azure,
    GCP,
}

/// State of a cloud instance.
#[derive(Debug, Clone, Copy, PartialEq, Eq, Structural)]
pub enum InstanceState {
    Pending,
    Running,
    Stopping,
    Stopped,
    Terminating,
    Terminated,
}

/// State of a cloud disk.
#[derive(Debug, Clone, Copy, PartialEq, Eq, Structural)]
pub enum DiskState {
    Creating,
    Available,
    InUse,
    Deleting,
    Deleted,
    Error,
}

/// Kind of load balancer.
#[derive(Debug, Clone, Copy, PartialEq, Eq, Structural)]
pub enum LoadBalancerType {
    Application,
    Network,
    Classic,
}

/// Exposure of a load balancer.
#[derive(Debug, Clone, Copy, PartialEq, Eq, Structural)]
pub enum LoadBalancerScheme {
    InternetFacing,
    Internal,
}

/// State of a load balancer.
#[derive(Debug, Clone, Copy, PartialEq, Eq, Structural)]
pub enum LoadBalancerState {
    Provisioning,
    Active,
    Failed,
}

/// The AWS provider of one region.
pub struct AwsProvider {
    pub access_key: String,
    pub secret_key: String,
    pub region: String,
}

/// The regions the AWS provider offers.
pub open spec fn aws_regions() -> Seq<Seq<char>> {
    seq!["us-east-1"@, "us-east-2"@, "us-west-1"@, "us-west-2"@, "eu-west-1"@, "eu-central-1"@,
        "ap-northeast-1"@, "ap-southeast-1"@, "ap-southeast-2"@]
}

/// The zones of a region: six in us-east-1, four in us-west-2, and `a` to `c`
/// elsewhere.
pub open spec fn aws_zones(region: Seq<char>) -> Seq<Seq<char>> {
    if region == "us-east-1"@ {
        seq!["us-east-1a"@, "us-east-1b"@, "us-east-1c"@, "us-east-1d"@, "us-east-1e"@, "us-east-1f"@]
    } else if region == "us-west-2"@ {
        seq!["us-west-2a"@, "us-west-2b"@, "us-west-2c"@, "us-west-2d"@]
    } else {
        seq![region + "a"@, region + "b"@, region + "c"@]
    }
}

/// The views of a list of strings.
pub open spec fn string_views(v: Seq<String>) -> Seq<Seq<char>> {
    v.map_values(|s: String| s@)
}

/// The public address of an instance: `54.a.b.c`.
pub open spec fn public_ip_text(a: u8, b: u8, c: u8) -> Seq<char> {
    "54."@ + decimal(a as nat) + "."@ + decimal(b as nat) + "."@ + decimal(c as nat)
}

/// The private address of an instance: `10.0.a.b`.
pub open spec fn private_ip_text(a: u8, b: u8) -> Seq<char> {
    "10.0."@ + decimal(a as nat) + "."@ + decimal(b as nat)
}

/// A random byte (`rand::random`); nothing is known of its value.
#[verifier::external_body]
fn random_u8() -> u8 {
    rand::random::<u8>()
}

impl AwsProvider {
    /// A provider for `region` with the given credentials.
    pub fn new(access_key: String, secret_key: String, region: String) -> (p: Self)
        ensures
            p.access_key == access_key,
            p.secret_key == secret_key,
            p.region == region,
    {
        AwsProvider { access_key, secret_key, region }
    }

    /// The provider's name.
    pub fn name(&self) -> (r: &'static str)
        ensures
            r@ == "AWS"@,
    {
        "AWS"
    }

    /// The kind of provider.
    pub fn provider_type(&self) -> (r: CloudProvider)
        ensures
            r == CloudProvider::AWS,
    {
        CloudProvider::AWS
    }

    /// The regions offered.
    pub fn list_regions(&self) -> (r: Vec<String>)
        ensures
            string_views(r@) == aws_regions(),
    {
        let mut r: Vec<String> = Vec::new();
        r.push(owned("us-east-1"));
        r.push(owned("us-east-2"));
        r.push(owned("us-west-1"));
        r.push(owned("us-west-2"));
        r.push(owned("eu-west-1"));
        r.push(owned("eu-central-1"));
        r.push(owned("ap-northeast-1"));
        r.push(owned("ap-southeast-1"));
        r.push(owned("ap-southeast-2"));
        assert(string_views(r@) =~= aws_regions());
        r
    }

    /// The zones of `region` (see [`aws_zones`]).
    pub fn list_zones(&self, region: &str) -> (r: Vec<String>)
        ensures
            string_views(r@) == aws_zones(region@),
    {
        let mut r: Vec<String> = Vec::new();
        if str_eq(region, "us-east-1") {
            r.push(owned("us-east-1a"));
            r.push(owned("us-east-1b"));
            r.push(owned("us-east-1c"));
            r.push(owned("us-east-1d"));
            r.push(owned("us-east-1e"));
            r.push(owned("us-east-1f"));
        } else if str_eq(region, "us-west-2") {
            r.push(owned("us-west-2a"));
            r.push(owned("us-west-2b"));
            r.push(owned("us-west-2c"));
            r.push(owned("us-west-2d"));
        } else {
            r.push(concat(region, "a"));
            r.push(concat(region, "b"));
            r.push(concat(region, "c"));
        }
        assert(string_views(r@) =~= aws_zones(region@));
        r
    }
}

/// The public address made of three bytes.
pub fn public_ip(a: u8, b: u8, c: u8) -> (r: String)
    ensures
        r@ == public_ip_text(a, b, c),
{
    let mut r = owned("54.");
    push_decimal(&mut r, a as u64);
    push_str(&mut r, ".");
    push_decimal(&mut r, b as u64);
    push_str(&mut r, ".");
    push_decimal(&mut r, c as u64);
    r
}

/// The private address made of two bytes.
pub fn private_ip(a: u8, b: u8) -> (r: String)
    ensures
        r@ == private_ip_text(a, b),
{
    let mut r = owned("10.0.");
    push_decimal(&mut r, a as u64);
    push_str(&mut r, ".");
    push_decimal(&mut r, b as u64);
    r
}

/// Random public and private addresses for a new instance, of the forms
/// `54.a.b.c` and `10.0.d.e`.
pub fn random_instance_addresses() -> (r: (String, String))
    ensures
        exists|a: u8, b: u8, c: u8| r.0@ == public_ip_text(a, b, c),
        exists|d: u8, e: u8| r.1@ == private_ip_text(d, e),
{
    let a = random_u8();
    let b = random_u8();
    let c = random_u8();
    let d = random_u8();
    let e = random_u8();
    (public_ip(a, b, c), private_ip(d, e))
}

/// An instance of a cloud provider. Times are seconds since the Unix epoch.
#[derive(Debug, Clone)]
pub struct CloudInstance {
    pub id: String,
    pub name: String,
    pub provider: CloudProvider,
    pub region: String,
    pub zone: String,
    pub instance_type: String,
    pub public_ip: Option<String>,
    pub private_ip: Option<String>,
    pub state: InstanceState,
    pub tags: Vec<(String, String)>,
    pub created_at: i64,
}

/// A disk of a cloud provider.
#[derive(Debug, Clone)]
pub struct CloudDisk {
    pub id: String,
    pub name: String,
    pub provider: CloudProvider,
    pub region: String,
    pub zone: String,
    pub disk_type: String,
    pub size_gb: u32,
    pub state: DiskState,
    pub tags: Vec<(String, String)>,
    pub created_at: i64,
}

/// A load balancer of a cloud provider.
#[derive(Debug, Clone)]
pub struct CloudLoadBalancer {
    pub id: String,
    pub name: String,
    pub provider: CloudProvider,
    pub region: String,
    pub lb_type: LoadBalancerType,
    pub scheme: LoadBalancerScheme,
    pub ip_address: Option<String>,
    pub dns_name: Option<String>,
    pub state: LoadBalancerState,
    pub tags: Vec<(String, String)>,
    pub created_at: i64,
}

/// The time `hours` hours before `now`, or the earliest time when that is out
/// of range.
pub open spec fn hours_before(now: i64, hours: i64) -> i64 {
    if now - 3600 * hours >= i64::MIN { (now - 3600 * hours) as i64 } else { i64::MIN }
}

/// The time `hours` hours before `now` (see [`hours_before`]).
pub fn time_before(now: i64, hours: i64) -> (t: i64)
    requires
        hours >= 0,
    ensures
        t == hours_before(now, hours),
{
    let back: i128 = 3600 * (hours as i128);
    let t: i128 = now as i128 - back;
    if t >= i64::MIN as i128 {
        t as i64
    } else {
        i64::MIN
    }
}

/// The optional text as characters.
pub open spec fn opt_chars(o: Option<String>) -> Option<Seq<char>> {
    match o {
        Some(s) => Some(s@),
        None => None,
    }
}

/// The key-value pairs as characters.
pub open spec fn tag_views(v: Seq<(String, String)>) -> Seq<(Seq<char>, Seq<char>)> {
    v.map_values(|p: (String, String)| (p.0@, p.1@))
}

/// The DNS name of a load balancer: `{name}.{region}.elb.amazonaws.com`.
pub open spec fn elb_dns_text(name: Seq<char>, region: Seq<char>) -> Seq<char> {
    name + "."@ + region + ".elb.amazonaws.com"@
}

/// The DNS name of a load balancer (see [`elb_dns_text`]).
pub fn elb_dns_name(name: &str, region: &str) -> (r: String)
    ensures
        r@ == elb_dns_text(name@, region@),
{
    let mut r = owned(name);
    push_str(&mut r, ".");
    push_str(&mut r, region);
    push_str(&mut r, ".elb.amazonaws.com");
    r
}

/// What is reported of an instance: every field but the identifier and the time.
pub open spec fn instance_is(i: CloudInstance, name: Seq<char>, region: Seq<char>, zone: Seq<char>, ty: Seq<char>,
    public: Seq<char>, private: Seq<char>, state: InstanceState) -> bool {
    &&& i.name@ == name && i.provider == CloudProvider::AWS && i.region@ == region && i.zone@ == zone
    &&& i.instance_type@ == ty && opt_chars(i.public_ip) == Some(public) && opt_chars(i.private_ip) == Some(private)
    &&& i.state == state && i.tags@.len() == 0
}

/// What is reported of a disk: every field but the identifier and the time.
pub open spec fn disk_is(d: CloudDisk, name: Seq<char>, region: Seq<char>, zone: Seq<char>, ty: Seq<char>, size: u32,
    state: DiskState) -> bool {
    &&& d.name@ == name && d.provider == CloudProvider::AWS && d.region@ == region && d.zone@ == zone
    &&& d.disk_type@ == ty && d.size_gb == size && d.state == state && d.tags@.len() == 0
}

/// What is reported of a load balancer: every field but the identifier and the time.
pub open spec fn balancer_is(b: CloudLoadBalancer, name: Seq<char>, region: Seq<char>, lb_type: LoadBalancerType,
    scheme: LoadBalancerScheme) -> bool {
    &&& b.name@ == name && b.provider == CloudProvider::AWS && b.region@ == region
    &&& b.lb_type == lb_type && b.scheme == scheme
    &&& b.ip_address is None && opt_chars(b.dns_name) == Some(elb_dns_text(name, region))
    &&& b.state == LoadBalancerState::Active && b.tags@.len() == 0
}

impl AwsProvider {
    /// A new instance `name` of `instance_type` in `region` and `zone` with `tags`:
    /// pending, under a fresh identifier, with random public (`54.a.b.c`) and
    /// private (`10.0.d.e`) addresses, created now.
    pub fn create_instance(&self, name: &str, region: &str, zone: &str, instance_type: &str, disk_size_gb: u32,
        tags: Vec<(String, String)>) -> (r: CloudInstance)
        ensures
            r.id@.len() == 36,
            r.name@ == name@ && r.provider == CloudProvider::AWS && r.region@ == region@ && r.zone@ == zone@,
            r.instance_type@ == instance_type@,
            exists|a: u8, b: u8, c: u8| opt_chars(r.public_ip) == Some(#[trigger] public_ip_text(a, b, c)),
            exists|d: u8, e: u8| opt_chars(r.private_ip) == Some(#[trigger] private_ip_text(d, e)),
            r.state == InstanceState::Pending,
            r.tags == tags,
    {
        let id = new_uuid();
        let (public, private) = random_instance_addresses();
        CloudInstance {
            id,
            name: owned(name),
            provider: CloudProvider::AWS,
            region: owned(region),
            zone: owned(zone),
            instance_type: owned(instance_type),
            public_ip: Some(public),
            private_ip: Some(private),
            state: InstanceState::Pending,
            tags,
            created_at: unix_now(),
        }
    }

    /// The instance `id` as reported by the provider at `now`: `mock-instance`, a
    /// running t3.micro in the provider's zone `a`, created an hour before.
    pub fn get_instance_at(&self, id: &str, now: i64) -> (r: CloudInstance)
        ensures
            r.id@ == id@,
            instance_is(r, "mock-instance"@, self.region@, self.region@ + "a"@, "t3.micro"@, "54.123.45.67"@,
                "10.0.1.2"@, InstanceState::Running),
            r.created_at == hours_before(now, 1),
    {
        CloudInstance {
            id: owned(id),
            name: owned("mock-instance"),
            provider: CloudProvider::AWS,
            region: self.region.clone(),
            zone: concat(self.region.as_str(), "a"),
            instance_type: owned("t3.micro"),
            public_ip: Some(owned("54.123.45.67")),
            private_ip: Some(owned("10.0.1.2")),
            state: InstanceState::Running,
            tags: Vec::new(),
            created_at: time_before(now, 1),
        }
    }

    /// The instance `id` as reported now (see [`AwsProvider::get_instance_at`]).
    pub fn get_instance(&self, id: &str) -> (r: CloudInstance)
        ensures
            r.id@ == id@,
            instance_is(r, "mock-instance"@, self.region@, self.region@ + "a"@, "t3.micro"@, "54.123.45.67"@,
                "10.0.1.2"@, InstanceState::Running),
            exists|now: i64| r.created_at == #[trigger] hours_before(now, 1),
    {
        self.get_instance_at(id, unix_now())
    }

    /// The instances reported at `now`: `mock-instance-1`, a t3.micro in zone `a`
    /// created an hour before, and `mock-instance-2`, a t3.small in zone `b`
    /// created two hours before; both running, under fresh identifiers.
    pub fn list_instances_at(&self, now: i64) -> (r: Vec<CloudInstance>)
        ensures
            r@.len() == 2,
            r@[0].id@.len() == 36 && r@[1].id@.len() == 36,
            instance_is(r@[0], "mock-instance-1"@, self.region@, self.region@ + "a"@, "t3.micro"@, "54.123.45.67"@,
                "10.0.1.2"@, InstanceState::Running),
            instance_is(r@[1], "mock-instance-2"@, self.region@, self.region@ + "b"@, "t3.small"@, "54.123.45.68"@,
                "10.0.1.3"@, InstanceState::Running),
            r@[0].created_at == hours_before(now, 1),
            r@[1].created_at == hours_before(now, 2),
    {
        let mut r: Vec<CloudInstance> = Vec::new();
        r.push(CloudInstance {
            id: new_uuid(),
            name: owned("mock-instance-1"),
            provider: CloudProvider::AWS,
            region: self.region.clone(),
            zone: concat(self.region.as_str(), "a"),
            instance_type: owned("t3.micro"),
            public_ip: Some(owned("54.123.45.67")),
            private_ip: Some(owned("10.0.1.2")),
            state: InstanceState::Running,
            tags: Vec::new(),
            created_at: time_before(now, 1),
        });
        r.push(CloudInstance {
            id: new_uuid(),
            name: owned("mock-instance-2"),
            provider: CloudProvider::AWS,
            region: self.region.clone(),
            zone: concat(self.region.as_str(), "b"),
            instance_type: owned("t3.small"),
            public_ip: Some(owned("54.123.45.68")),
            private_ip: Some(owned("10.0.1.3")),
            state: InstanceState::Running,
            tags: Vec::new(),
            created_at: time_before(now, 2),
        });
        r
    }

    /// The instances reported now (see [`AwsProvider::list_instances_at`]).
    pub fn list_instances(&self) -> (r: Vec<CloudInstance>)
        ensures
            r@.len() == 2,
            r@[0].id@.len() == 36 && r@[1].id@.len() == 36,
            instance_is(r@[0], "mock-instance-1"@, self.region@, self.region@ + "a"@, "t3.micro"@, "54.123.45.67"@,
                "10.0.1.2"@, InstanceState::Running),
            instance_is(r@[1], "mock-instance-2"@, self.region@, self.region@ + "b"@, "t3.small"@, "54.123.45.68"@,
                "10.0.1.3"@, InstanceState::Running),
            exists|now: i64| r@[0].created_at == #[trigger] hours_before(now, 1) && r@[1].created_at == hours_before(now, 2),
    {
        self.list_instances_at(unix_now())
    }

    /// A new disk `name` of `disk_type` and `size_gb` in `region` and `zone` with
    /// `tags`: being created, under a fresh identifier, created now.
    pub fn create_disk(&self, name: &str, region: &str, zone: &str, disk_type: &str, size_gb: u32,
        tags: Vec<(String, String)>) -> (r: CloudDisk)
        ensures
            r.id@.len() == 36,
            r.name@ == name@ && r.provider == CloudProvider::AWS && r.region@ == region@ && r.zone@ == zone@,
            r.disk_type@ == disk_type@ && r.size_gb == size_gb && r.state == DiskState::Creating,
            r.tags == tags,
    {
        CloudDisk {
            id: new_uuid(),
            name: owned(name),
            provider: CloudProvider::AWS,
            region: owned(region),
            zone: owned(zone),
            disk_type: owned(disk_type),
            size_gb,
            state: DiskState::Creating,
            tags,
            created_at: unix_now(),
        }
    }

    /// The disk `id` as reported at `now`: `mock-disk`, an available 100 GB gp2
    /// disk in the provider's zone `a`, created an hour before.
    pub fn get_disk_at(&self, id: &str, now: i64) -> (r: CloudDisk)
        ensures
            r.id@ == id@,
            disk_is(r, "mock-disk"@, self.region@, self.region@ + "a"@, "gp2"@, 100, DiskState::Available),
            r.created_at == hours_before(now, 1),
    {
        CloudDisk {
            id: owned(id),
            name: owned("mock-disk"),
            provider: CloudProvider::AWS,
            region: self.region.clone(),
            zone: concat(self.region.as_str(), "a"),
            disk_type: owned("gp2"),
            size_gb: 100,
            state: DiskState::Available,
            tags: Vec::new(),
            created_at: time_before(now, 1),
        }
    }

    /// The disk `id` as reported now (see [`AwsProvider::get_disk_at`]).
    pub fn get_disk(&self, id: &str) -> (r: CloudDisk)
        ensures
            r.id@ == id@,
            disk_is(r, "mock-disk"@, self.region@, self.region@ + "a"@, "gp2"@, 100, DiskState::Available),
            exists|now: i64| r.created_at == #[trigger] hours_before(now, 1),
    {
        self.get_disk_at(id, unix_now())
    }

    /// The disks reported at `now`: `mock-disk-1`, an available 100 GB gp2 disk in
    /// zone `a` created an hour before, and `mock-disk-2`, a 200 GB io1 disk in use
    /// in zone `b` created two hours before; under fresh identifiers.
    pub fn list_disks_at(&self, now: i64) -> (r: Vec<CloudDisk>)
        ensures
            r@.len() == 2,
            r@[0].id@.len() == 36 && r@[1].id@.len() == 36,
            disk_is(r@[0], "mock-disk-1"@, self.region@, self.region@ + "a"@, "gp2"@, 100, DiskState::Available),
            disk_is(r@[1], "mock-disk-2"@, self.region@, self.region@ + "b"@, "io1"@, 200, DiskState::InUse),
            r@[0].created_at == hours_before(now, 1),
            r@[1].created_at == hours_before(now, 2),
    {
        let mut r: Vec<CloudDisk> = Vec::new();
        r.push(CloudDisk {
            id: new_uuid(),
            name: owned("mock-disk-1"),
            provider: CloudProvider::AWS,
            region: self.region.clone(),
            zone: concat(self.region.as_str(), "a"),
            disk_type: owned("gp2"),
            size_gb: 100,
            state: DiskState::Available,
            tags: Vec::new(),
            created_at: time_before(now, 1),
        });
        r.push(CloudDisk {
            id: new_uuid(),
            name: owned("mock-disk-2"),
            provider: CloudProvider::AWS,
            region: self.region.clone(),
            zone: concat(self.region.as_str(), "b"),
            disk_type: owned("io1"),
            size_gb: 200,
            state: DiskState::InUse,
            tags: Vec::new(),
            created_at: time_before(now, 2),
        });
        r
    }

    /// The disks reported now (see [`AwsProvider::list_disks_at`]).
    pub fn list_disks(&self) -> (r: Vec<CloudDisk>)
        ensures
            r@.len() == 2,
            r@[0].id@.len() == 36 && r@[1].id@.len() == 36,
            disk_is(r@[0], "mock-disk-1"@, self.region@, self.region@ + "a"@, "gp2"@, 100, DiskState::Available),
            disk_is(r@[1], "mock-disk-2"@, self.region@, self.region@ + "b"@, "io1"@, 200, DiskState::InUse),
            exists|now: i64| r@[0].created_at == #[trigger] hours_before(now, 1) && r@[1].created_at == hours_before(now, 2),
    {
        self.list_disks_at(unix_now())
    }

    /// A new load balancer `name` in `region` of the given type and scheme with
    /// `tags`: provisioning, without an address, named `{name}.{region}.elb.amazonaws.com`,
    /// under a fresh identifier, created now.
    pub fn create_load_balancer(&self, name: &str, region: &str, lb_type: LoadBalancerType, scheme: LoadBalancerScheme,
        tags: Vec<(String, String)>) -> (r: CloudLoadBalancer)
        ensures
            r.id@.len() == 36,
            r.name@ == name@ && r.provider == CloudProvider::AWS && r.region@ == region@,
            r.lb_type == lb_type && r.scheme == scheme && r.ip_address is None,
            opt_chars(r.dns_name) == Some(elb_dns_text(name@, region@)),
            r.state == LoadBalancerState::Provisioning,
            r.tags == tags,
    {
        CloudLoadBalancer {
            id: new_uuid(),
            name: owned(name),
            provider: CloudProvider::AWS,
            region: owned(region),
            lb_type,
            scheme,
            ip_address: None,
            dns_name: Some(elb_dns_name(name, region)),
            state: LoadBalancerState::Provisioning,
            tags,
            created_at: unix_now(),
        }
    }

    /// The load balancer `id` as reported at `now`: `mock-lb`, an active
    /// internet-facing application balancer of the provider's region, created an
    /// hour before.
    pub fn get_load_balancer_at(&self, id: &str, now: i64) -> (r: CloudLoadBalancer)
        ensures
            r.id@ == id@,
            balancer_is(r, "mock-lb"@, self.region@, LoadBalancerType::Application, LoadBalancerScheme::InternetFacing),
            r.created_at == hours_before(now, 1),
    {
        CloudLoadBalancer {
            id: owned(id),
            name: owned("mock-lb"),
            provider: CloudProvider::AWS,
            region: self.region.clone(),
            lb_type: LoadBalancerType::Application,
            scheme: LoadBalancerScheme::InternetFacing,
            ip_address: None,
            dns_name: Some(elb_dns_name("mock-lb", self.region.as_str())),
            state: LoadBalancerState::Active,
            tags: Vec::new(),
            created_at: time_before(now, 1),
        }
    }

    /// The load balancer `id` as reported now (see [`AwsProvider::get_load_balancer_at`]).
    pub fn get_load_balancer(&self, id: &str) -> (r: CloudLoadBalancer)
        ensures
            r.id@ == id@,
            balancer_is(r, "mock-lb"@, self.region@, LoadBalancerType::Application, LoadBalancerScheme::InternetFacing),
            exists|now: i64| r.created_at == #[trigger] hours_before(now, 1),
    {
        self.get_load_balancer_at(id, unix_now())
    }

    /// The load balancers reported at `now`: `mock-lb-1`, an internet-facing
    /// application balancer created an hour before, and `mock-lb-2`, an internal
    /// network balancer created two hours before; both active, under fresh
    /// identifiers.
    pub fn list_load_balancers_at(&self, now: i64) -> (r: Vec<CloudLoadBalancer>)
        ensures
            r@.len() == 2,
            r@[0].id@.len() == 36 && r@[1].id@.len() == 36,
            balancer_is(r@[0], "mock-lb-1"@, self.region@, LoadBalancerType::Application, LoadBalancerScheme::InternetFacing),
            balancer_is(r@[1], "mock-lb-2"@, self.region@, LoadBalancerType::Network, LoadBalancerScheme::Internal),
            r@[0].created_at == hours_before(now, 1),
            r@[1].created_at == hours_before(now, 2),
    {
        let mut r: Vec<CloudLoadBalancer> = Vec::new();
        r.push(CloudLoadBalancer {
            id: new_uuid(),
            name: owned("mock-lb-1"),
            provider: CloudProvider::AWS,
            region: self.region.clone(),
            lb_type: LoadBalancerType::Application,
            scheme: LoadBalancerScheme::InternetFacing,
            ip_address: None,
            dns_name: Some(elb_dns_name("mock-lb-1", self.region.as_str())),
            state: LoadBalancerState::Active,
            tags: Vec::new(),
            created_at: time_before(now, 1),
        });
        r.push(CloudLoadBalancer {
            id: new_uuid(),
            name: owned("mock-lb-2"),
            provider: CloudProvider::AWS,
            region: self.region.clone(),
            lb_type: LoadBalancerType::Network,
            scheme: LoadBalancerScheme::Internal,
            ip_address: None,
            dns_name: Some(elb_dns_name("mock-lb-2", self.region.as_str())),
            state: LoadBalancerState::Active,
            tags: Vec::new(),
            created_at: time_before(now, 2),
        });
        r
    }

    /// The load balancers reported now (see [`AwsProvider::list_load_balancers_at`]).
    pub fn list_load_balancers(&self) -> (r: Vec<CloudLoadBalancer>)
        ensures
            r@.len() == 2,
            r@[0].id@.len() == 36 && r@[1].id@.len() == 36,
            balancer_is(r@[0], "mock-lb-1"@, self.region@, LoadBalancerType::Application, LoadBalancerScheme::InternetFacing),
            balancer_is(r@[1], "mock-lb-2"@, self.region@, LoadBalancerType::Network, LoadBalancerScheme::Internal),
            exists|now: i64| r@[0].created_at == #[trigger] hours_before(now, 1) && r@[1].created_at == hours_before(now, 2),
    {
        self.list_load_balancers_at(unix_now())
    }
}

} // verus!
