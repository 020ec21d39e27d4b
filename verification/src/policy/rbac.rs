//! Role-based access control for command and action families.
//!
//! Workspace roles are `admin | editor | approver | viewer`; tenant roles are
//! `owner | admin | billing | member`. Tenant `owner`/`admin` inherit workspace `admin`
//! everywhere; `billing` sees usage only. A missing role is a denial.

use vstd::prelude::*;
use crate::text::{str_eq, owned};

verus! {

/// A workspace-scope role.
#[derive(Debug, Clone, Copy, PartialEq, Eq, Hash, Structural)]
pub enum WorkspaceRole {
    /// Manages members, policies, connectors, teammates and packs.
    Admin,
    /// Creates work and messages.
    Editor,
    /// Approves effects within the workspace.
    Approver,
    /// Reads only.
    Viewer,
}

/// The wire name of a workspace role.
pub open spec fn workspace_role_name(r: WorkspaceRole) -> Seq<char> {
    match r {
        WorkspaceRole::Admin => "admin"@,
        WorkspaceRole::Editor => "editor"@,
        WorkspaceRole::Approver => "approver"@,
        WorkspaceRole::Viewer => "viewer"@,
    }
}

impl WorkspaceRole {
    /// Every workspace role, most privileged first.
    pub const ALL: [WorkspaceRole; 4] = [
        WorkspaceRole::Admin,
        WorkspaceRole::Editor,
        WorkspaceRole::Approver,
        WorkspaceRole::Viewer,
    ];

    /// The canonical wire name.
    pub fn as_str(self) -> (s: &'static str)
        ensures
            s@ == workspace_role_name(self),
    {
        match self {
            WorkspaceRole::Admin => "admin",
            WorkspaceRole::Editor => "editor",
            WorkspaceRole::Approver => "approver",
            WorkspaceRole::Viewer => "viewer",
        }
    }

    /// Parse a canonical workspace role; the rejected value is returned on failure.
    pub fn parse(value: &str) -> (r: Result<WorkspaceRole, String>)
        ensures
            r matches Ok(role) ==> workspace_role_name(role) == value@,
            r is Err ==> (forall|role: WorkspaceRole| workspace_role_name(role) != value@),
            r matches Err(v) ==> v@ == value@,
    {
        if str_eq(value, "admin") {
            Ok(WorkspaceRole::Admin)
        } else if str_eq(value, "editor") {
            Ok(WorkspaceRole::Editor)
        } else if str_eq(value, "approver") {
            Ok(WorkspaceRole::Approver)
        } else if str_eq(value, "viewer") {
            Ok(WorkspaceRole::Viewer)
        } else {
            proof {
                assert forall|role: WorkspaceRole| workspace_role_name(role) != value@ by {
                    match role {
                        WorkspaceRole::Admin => {},
                        WorkspaceRole::Editor => {},
                        WorkspaceRole::Approver => {},
                        WorkspaceRole::Viewer => {},
                    }
                }
            }
            Err(owned(value))
        }
    }
}

/// A tenant-scope role.
#[derive(Debug, Clone, Copy, PartialEq, Eq, Hash, Structural)]
pub enum TenantRole {
    /// Owns the tenant.
    Owner,
    /// Administers the tenant.
    Admin,
    /// Sees usage and billing figures only.
    Billing,
    /// An ordinary member.
    Member,
}

/// The wire name of a tenant role.
pub open spec fn tenant_role_name(r: TenantRole) -> Seq<char> {
    match r {
        TenantRole::Owner => "owner"@,
        TenantRole::Admin => "admin"@,
        TenantRole::Billing => "billing"@,
        TenantRole::Member => "member"@,
    }
}

impl TenantRole {
    /// Every tenant role, most privileged first.
    pub const ALL: [TenantRole; 4] = [
        TenantRole::Owner,
        TenantRole::Admin,
        TenantRole::Billing,
        TenantRole::Member,
    ];

    /// The canonical wire name.
    pub fn as_str(self) -> (s: &'static str)
        ensures
            s@ == tenant_role_name(self),
    {
        match self {
            TenantRole::Owner => "owner",
            TenantRole::Admin => "admin",
            TenantRole::Billing => "billing",
            TenantRole::Member => "member",
        }
    }

    /// Parse a canonical tenant role; the rejected value is returned on failure.
    pub fn parse(value: &str) -> (r: Result<TenantRole, String>)
        ensures
            r matches Ok(role) ==> tenant_role_name(role) == value@,
            r is Err ==> (forall|role: TenantRole| tenant_role_name(role) != value@),
            r matches Err(v) ==> v@ == value@,
    {
        if str_eq(value, "owner") {
            Ok(TenantRole::Owner)
        } else if str_eq(value, "admin") {
            Ok(TenantRole::Admin)
        } else if str_eq(value, "billing") {
            Ok(TenantRole::Billing)
        } else if str_eq(value, "member") {
            Ok(TenantRole::Member)
        } else {
            proof {
                assert forall|role: TenantRole| tenant_role_name(role) != value@ by {
                    match role {
                        TenantRole::Owner => {},
                        TenantRole::Admin => {},
                        TenantRole::Billing => {},
                        TenantRole::Member => {},
                    }
                }
            }
            Err(owned(value))
        }
    }

    /// Whether this tenant role inherits workspace `admin` everywhere.
    pub fn inherits_workspace_admin(self) -> (r: bool)
        ensures
            r == (self == TenantRole::Owner || self == TenantRole::Admin),
    {
        match self {
            TenantRole::Owner | TenantRole::Admin => true,
            _ => false,
        }
    }
}

/// The roles one actor holds.
#[derive(Debug, Clone, Copy, PartialEq, Eq, Default, Structural)]
pub struct ActorRoles {
    /// Tenant-scope role, when the actor is a tenant member.
    pub tenant: Option<TenantRole>,
    /// Workspace-scope role, when the actor is a workspace member.
    pub workspace: Option<WorkspaceRole>,
}

/// The effective workspace role, applying tenant `owner`/`admin` inheritance.
pub open spec fn effective_workspace_role(roles: ActorRoles) -> Option<WorkspaceRole> {
    match roles.tenant {
        Some(TenantRole::Owner) | Some(TenantRole::Admin) => Some(WorkspaceRole::Admin),
        _ => roles.workspace,
    }
}

impl ActorRoles {
    /// Build the roles an actor holds.
    pub fn new(tenant: Option<TenantRole>, workspace: Option<WorkspaceRole>) -> (r: Self)
        ensures
            r.tenant == tenant,
            r.workspace == workspace,
    {
        ActorRoles { tenant, workspace }
    }

    /// The effective workspace role, applying tenant `owner`/`admin` inheritance.
    pub fn effective_workspace_role(self) -> (r: Option<WorkspaceRole>)
        ensures
            r == effective_workspace_role(self),
    {
        match self.tenant {
            Some(TenantRole::Owner) | Some(TenantRole::Admin) => Some(WorkspaceRole::Admin),
            _ => self.workspace,
        }
    }
}

/// The command/action families policy gates.
#[derive(Debug, Clone, Copy, PartialEq, Eq, Hash, Structural)]
pub enum ActionFamily {
    /// Read workspace state.
    Read,
    /// Create work nodes, messages and plans.
    AuthorWork,
    /// Approve a pending effect.
    ApproveEffect,
    /// Manage members, policies, connectors, teammates and packs.
    ManageWorkspace,
    /// Execute a proposed effect of a given tier.
    ExecuteEffect {
        /// Consequence tier of the proposed effect.
        tier: u8,
    },
    /// Operator controls (kill switch, drain, freeze).
    AdminOps,
    /// Tenant administration.
    ManageTenant,
    /// Read usage and billing figures.
    ViewUsage,
}

/// Why a role check refused an action.
#[derive(Debug, Clone, Copy, PartialEq, Eq, Structural)]
pub enum RbacFailure {
    /// The actor holds no role at the required scope.
    NoRole,
    /// The actor's role is insufficient for the action family.
    InsufficientRole,
}

/// The reason string of an RBAC failure.
pub open spec fn rbac_failure_name(f: RbacFailure) -> Seq<char> {
    match f {
        RbacFailure::NoRole => "rbac_no_role"@,
        RbacFailure::InsufficientRole => "rbac_insufficient_role"@,
    }
}

impl RbacFailure {
    /// The canonical reason string.
    pub fn as_str(self) -> (s: &'static str)
        ensures
            s@ == rbac_failure_name(self),
    {
        match self {
            RbacFailure::NoRole => "rbac_no_role",
            RbacFailure::InsufficientRole => "rbac_insufficient_role",
        }
    }
}

/// The role semantics: whether `roles` may perform `action`, and why not.
pub open spec fn rbac_decision(roles: ActorRoles, action: ActionFamily) -> Result<(), RbacFailure> {
    let ws = effective_workspace_role(roles);
    match action {
        ActionFamily::ManageTenant => match roles.tenant {
            Some(TenantRole::Owner) | Some(TenantRole::Admin) => Ok(()),
            _ => Err(RbacFailure::InsufficientRole),
        },
        ActionFamily::ViewUsage => match roles.tenant {
            Some(TenantRole::Member) | None => Err(RbacFailure::InsufficientRole),
            _ => Ok(()),
        },
        ActionFamily::Read => match ws {
            Some(_) => Ok(()),
            None => Err(RbacFailure::NoRole),
        },
        ActionFamily::AuthorWork => match ws {
            Some(WorkspaceRole::Admin) | Some(WorkspaceRole::Editor) => Ok(()),
            Some(_) => Err(RbacFailure::InsufficientRole),
            None => Err(RbacFailure::NoRole),
        },
        ActionFamily::ApproveEffect => match ws {
            Some(WorkspaceRole::Admin) | Some(WorkspaceRole::Approver) => Ok(()),
            Some(_) => Err(RbacFailure::InsufficientRole),
            None => Err(RbacFailure::NoRole),
        },
        ActionFamily::ManageWorkspace | ActionFamily::AdminOps => match ws {
            Some(WorkspaceRole::Admin) => Ok(()),
            Some(_) => Err(RbacFailure::InsufficientRole),
            None => Err(RbacFailure::NoRole),
        },
        ActionFamily::ExecuteEffect { tier } => match ws {
            Some(WorkspaceRole::Admin) => Ok(()),
            Some(WorkspaceRole::Approver) => if tier <= 3 {
                Ok(())
            } else {
                Err(RbacFailure::InsufficientRole)
            },
            Some(WorkspaceRole::Editor) => if tier <= 2 {
                Ok(())
            } else {
                Err(RbacFailure::InsufficientRole)
            },
            Some(WorkspaceRole::Viewer) => Err(RbacFailure::InsufficientRole),
            None => Err(RbacFailure::NoRole),
        },
    }
}

/// Whether `roles` may perform `action`; an unknown or missing role denies.
pub fn check(roles: ActorRoles, action: ActionFamily) -> (r: Result<(), RbacFailure>)
    ensures
        r == rbac_decision(roles, action),
        action == ActionFamily::ApproveEffect ==> (r is Ok <==> (effective_workspace_role(roles) == Some(
            WorkspaceRole::Admin,
        ) || effective_workspace_role(roles) == Some(WorkspaceRole::Approver))),
{
    proof {
        law_only_admins_and_approvers_approve(roles);
    }
    let workspace = roles.effective_workspace_role();
    match action {
        ActionFamily::ManageTenant => match roles.tenant {
            Some(TenantRole::Owner) | Some(TenantRole::Admin) => Ok(()),
            _ => Err(RbacFailure::InsufficientRole),
        },
        ActionFamily::ViewUsage => match roles.tenant {
            Some(TenantRole::Member) | None => Err(RbacFailure::InsufficientRole),
            _ => Ok(()),
        },
        ActionFamily::Read => match workspace {
            Some(_) => Ok(()),
            None => Err(RbacFailure::NoRole),
        },
        ActionFamily::AuthorWork => match workspace {
            Some(WorkspaceRole::Admin) | Some(WorkspaceRole::Editor) => Ok(()),
            Some(_) => Err(RbacFailure::InsufficientRole),
            None => Err(RbacFailure::NoRole),
        },
        ActionFamily::ApproveEffect => match workspace {
            Some(WorkspaceRole::Admin) | Some(WorkspaceRole::Approver) => Ok(()),
            Some(_) => Err(RbacFailure::InsufficientRole),
            None => Err(RbacFailure::NoRole),
        },
        ActionFamily::ManageWorkspace | ActionFamily::AdminOps => match workspace {
            Some(WorkspaceRole::Admin) => Ok(()),
            Some(_) => Err(RbacFailure::InsufficientRole),
            None => Err(RbacFailure::NoRole),
        },
        ActionFamily::ExecuteEffect { tier } => match workspace {
            Some(WorkspaceRole::Admin) => Ok(()),
            Some(WorkspaceRole::Approver) => if tier <= 3 {
                Ok(())
            } else {
                Err(RbacFailure::InsufficientRole)
            },
            Some(WorkspaceRole::Editor) => if tier <= 2 {
                Ok(())
            } else {
                Err(RbacFailure::InsufficientRole)
            },
            Some(WorkspaceRole::Viewer) => Err(RbacFailure::InsufficientRole),
            None => Err(RbacFailure::NoRole),
        },
    }
}

/// Role names are distinct, so a name parses back to the role that printed it.
pub proof fn lemma_workspace_role_names_distinct(a: WorkspaceRole, b: WorkspaceRole)
    ensures
        workspace_role_name(a) == workspace_role_name(b) ==> a == b,
{
    reveal_strlit("admin");
    reveal_strlit("editor");
    reveal_strlit("approver");
    reveal_strlit("viewer");
    if a != b {
        let (x, y) = (workspace_role_name(a), workspace_role_name(b));
        assert(x.len() != y.len() || x[0] != y[0] || x[1] != y[1]);
    }
}

/// Tenant role names are distinct.
pub proof fn lemma_tenant_role_names_distinct(a: TenantRole, b: TenantRole)
    ensures
        tenant_role_name(a) == tenant_role_name(b) ==> a == b,
{
    reveal_strlit("owner");
    reveal_strlit("admin");
    reveal_strlit("billing");
    reveal_strlit("member");
    if a != b {
        let (x, y) = (tenant_role_name(a), tenant_role_name(b));
        assert(x[0] != y[0]);
    }
}

/// Printing a role and parsing the name gives the role back.
pub proof fn law_role_names_round_trip(w: WorkspaceRole, t: TenantRole)
    ensures
        forall|r: WorkspaceRole| workspace_role_name(r) == workspace_role_name(w) ==> r == w,
        forall|r: TenantRole| tenant_role_name(r) == tenant_role_name(t) ==> r == t,
{
    assert forall|r: WorkspaceRole| workspace_role_name(r) == workspace_role_name(w) implies r == w by {
        lemma_workspace_role_names_distinct(r, w);
    }
    assert forall|r: TenantRole| tenant_role_name(r) == tenant_role_name(t) implies r == t by {
        lemma_tenant_role_names_distinct(r, t);
    }
}

/// A missing role denies every workspace-scope action with `NoRole`.
pub proof fn law_missing_role_denies(action: ActionFamily)
    requires
        !(action is ManageTenant || action is ViewUsage),
    ensures
        rbac_decision(ActorRoles { tenant: None, workspace: None }, action) == Err::<(), RbacFailure>(RbacFailure::NoRole),
{
}

/// Tenant owners and admins hold every workspace-scope permission an admin holds.
pub proof fn law_tenant_admins_inherit_workspace_admin(roles: ActorRoles, action: ActionFamily)
    requires
        roles.tenant == Some(TenantRole::Owner) || roles.tenant == Some(TenantRole::Admin),
        !(action is ViewUsage || action is ManageTenant),
    ensures
        rbac_decision(roles, action) is Ok,
{
}

/// Approving an effect is kept apart from authoring it: only an effective workspace
/// `admin` or `approver` may approve; an editor or viewer is refused as insufficient, and
/// an actor without a workspace role is refused as having none.
pub proof fn law_only_admins_and_approvers_approve(roles: ActorRoles)
    ensures
        rbac_decision(roles, ActionFamily::ApproveEffect) is Ok <==> (effective_workspace_role(roles) == Some(
            WorkspaceRole::Admin,
        ) || effective_workspace_role(roles) == Some(WorkspaceRole::Approver)),
        effective_workspace_role(roles) == Some(WorkspaceRole::Editor) ==> rbac_decision(
            roles,
            ActionFamily::ApproveEffect,
        ) == Err::<(), RbacFailure>(RbacFailure::InsufficientRole),
        effective_workspace_role(roles) == Some(WorkspaceRole::Viewer) ==> rbac_decision(
            roles,
            ActionFamily::ApproveEffect,
        ) == Err::<(), RbacFailure>(RbacFailure::InsufficientRole),
        effective_workspace_role(roles) is None ==> rbac_decision(roles, ActionFamily::ApproveEffect) == Err::<
            (),
            RbacFailure,
        >(RbacFailure::NoRole),
{
}

} // verus!
