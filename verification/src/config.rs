//! The persisted configuration: profile + instance groups and which one is
//! selected, with the operations `configure` performs on it.

use vstd::prelude::*;

use crate::client::InstanceEntry;
use crate::text::{decimal, decimal_string, join, join_strs, str_eq, views};

verus! {

broadcast use vstd::string::group_string_axioms;

/// A single profile + instance pairing that `start`/`stop` can act on.
#[derive(Debug)]
pub struct ProfileGroup {
    pub profile: String,
    pub instance_id: String,
}

impl ProfileGroup {
    /// A copy of this group.
    pub fn duplicate(&self) -> (r: ProfileGroup)
        ensures
            r == *self,
    {
        ProfileGroup { profile: self.profile.clone(), instance_id: self.instance_id.clone() }
    }

    /// How the group is shown: the instance ID, a space, then the profile.
    pub open spec fn spec_to_string(&self) -> Seq<char> {
        self.instance_id@ + " "@ + self.profile@
    }

    /// The group as it is shown.
    pub fn to_string(&self) -> (r: String)
        ensures
            r@ == self.spec_to_string(),
    {
        let mut r = self.instance_id.clone();
        r.append(" ");
        r.append(self.profile.as_str());
        r
    }
}

/// Config file contents: a `selected` index (which group `start`/`stop` act
/// on) and the `groups` of profile + instance pairings. Supports multiple
/// groups so one instance of the tool can manage several instances, each
/// possibly under a different AWS CLI profile. A persisted `selected` may be
/// out of bounds; the operations report that rather than assume otherwise.
#[derive(Debug)]
pub struct AwsomeConfig {
    pub selected: usize,
    pub groups: Vec<ProfileGroup>,
}

impl Default for AwsomeConfig {
    /// The configuration used when there is no config file yet: no groups,
    /// the first index selected.
    fn default() -> (r: AwsomeConfig)
        ensures
            r@ == (0usize, Seq::<ProfileGroup>::empty()),
    {
        AwsomeConfig { selected: 0, groups: Vec::new() }
    }
}

/// Everything that can go wrong acting on the configuration.
#[derive(Debug)]
pub enum ConfigError {
    /// There is no group at all.
    NoGroups,
    /// The persisted selection (0-based) names no group.
    SelectedOutOfBounds { selected: usize },
    /// A 1-based index of 0 was given.
    IndexNotPositive,
    /// The chosen group (0-based) does not exist.
    IndexOutOfRange { index: usize },
    /// The group to remove (0-based) does not exist.
    RemoveOutOfBounds,
    /// The group to remove is the selected one.
    RemoveSelected,
    /// The given profile is not among the AWS CLI's profiles.
    ProfileNotFound { profile: String, available: String },
    /// The given instance is not among the profile's instances.
    InstanceNotFound { instance_id: String, profile: String },
    /// The picked profile does not exist.
    NoSuchProfile,
    /// The picked instance does not exist.
    NoSuchInstance,
}

impl ConfigError {
    /// The message the error is reported with.
    pub open spec fn spec_message(&self) -> Seq<char> {
        match self {
            ConfigError::NoGroups => "no configured groups available"@,
            ConfigError::SelectedOutOfBounds { selected } => "config corruption: selected config index (#"@
                + decimal(*selected as nat + 1) + ") is out of bounds"@,
            ConfigError::IndexNotPositive => "expected an index number greater than 0"@,
            ConfigError::IndexOutOfRange { index } => "#"@ + decimal(*index as nat + 1)
                + " is out of index for the current configuration"@,
            ConfigError::RemoveOutOfBounds => "index out of bounds for available configs"@,
            ConfigError::RemoveSelected => "index cannot be the same as the selected config"@,
            ConfigError::ProfileNotFound { profile, available } => "AWS CLI profile "@ + profile@
                + " was not found. Available profiles: "@ + available@,
            ConfigError::InstanceNotFound { instance_id, profile } => "EC2 instance "@
                + instance_id@ + " was not found under profile `"@ + profile@ + "`."@,
            ConfigError::NoSuchProfile => "failed to get profile"@,
            ConfigError::NoSuchInstance => "failed to get instance"@,
        }
    }

    /// The message the error is reported with.
    pub fn message(&self) -> (r: String)
        ensures
            r@ == self.spec_message(),
    {
        match self {
            ConfigError::NoGroups => String::from_str("no configured groups available"),
            ConfigError::SelectedOutOfBounds { selected } => {
                let mut r = String::from_str("config corruption: selected config index (#");
                let n = decimal_string(*selected as u128 + 1);
                r.append(n.as_str());
                r.append(") is out of bounds");
                r
            },
            ConfigError::IndexNotPositive => String::from_str(
                "expected an index number greater than 0",
            ),
            ConfigError::IndexOutOfRange { index } => {
                let mut r = String::from_str("#");
                let n = decimal_string(*index as u128 + 1);
                r.append(n.as_str());
                r.append(" is out of index for the current configuration");
                r
            },
            ConfigError::RemoveOutOfBounds => String::from_str(
                "index out of bounds for available configs",
            ),
            ConfigError::RemoveSelected => String::from_str(
                "index cannot be the same as the selected config",
            ),
            ConfigError::ProfileNotFound { profile, available } => {
                let mut r = String::from_str("AWS CLI profile ");
                r.append(profile.as_str());
                r.append(" was not found. Available profiles: ");
                r.append(available.as_str());
                r
            },
            ConfigError::InstanceNotFound { instance_id, profile } => {
                let mut r = String::from_str("EC2 instance ");
                r.append(instance_id.as_str());
                r.append(" was not found under profile `");
                r.append(profile.as_str());
                r.append("`.");
                r
            },
            ConfigError::NoSuchProfile => String::from_str("failed to get profile"),
            ConfigError::NoSuchInstance => String::from_str("failed to get instance"),
        }
    }
}

/// Which group an operation acts on.
#[derive(Debug, Clone, Copy, PartialEq, Eq, Structural)]
pub enum IndexChoice {
    /// A 1-based index, as `configure show` numbers the groups.
    Given(usize),
    /// A 0-based index, as picked from a list.
    Picked(usize),
}

/// The 0-based index a choice names, or why it names none.
pub open spec fn spec_choice_index(choice: IndexChoice) -> Result<usize, ConfigError> {
    match choice {
        IndexChoice::Given(i) => if i == 0 {
            Err(ConfigError::IndexNotPositive)
        } else {
            Ok((i - 1) as usize)
        },
        IndexChoice::Picked(i) => Ok(i),
    }
}

impl IndexChoice {
    /// The 0-based index this choice names.
    pub fn index(&self) -> (r: Result<usize, ConfigError>)
        ensures
            r == spec_choice_index(*self),
    {
        match self {
            IndexChoice::Given(i) => match i.checked_sub(1) {
                Some(k) => Ok(k),
                None => Err(ConfigError::IndexNotPositive),
            },
            IndexChoice::Picked(i) => Ok(*i),
        }
    }
}

/// The configuration as the selection and the sequence of groups.
pub type ConfigView = (usize, Seq<ProfileGroup>);

impl View for AwsomeConfig {
    type V = ConfigView;

    open spec fn view(&self) -> ConfigView {
        (self.selected, self.groups@)
    }
}

/// The selected group, or why there is none.
pub open spec fn spec_get_selected(c: ConfigView) -> Result<ProfileGroup, ConfigError> {
    if c.1.len() == 0 {
        Err(ConfigError::NoGroups)
    } else if c.0 >= c.1.len() {
        Err(ConfigError::SelectedOutOfBounds { selected: c.0 })
    } else {
        Ok(c.1[c.0 as int])
    }
}

/// Selecting the chosen group: the new configuration and that group.
pub open spec fn spec_set_selected(c: ConfigView, choice: IndexChoice) -> Result<
    (ConfigView, ProfileGroup),
    ConfigError,
> {
    if c.1.len() == 0 {
        Err(ConfigError::NoGroups)
    } else {
        match spec_choice_index(choice) {
            Err(e) => Err(e),
            Ok(i) => if i >= c.1.len() {
                Err(ConfigError::IndexOutOfRange { index: i })
            } else {
                Ok(((i, c.1), c.1[i as int]))
            },
        }
    }
}

/// Appending a group; the selection stays.
pub open spec fn spec_add(c: ConfigView, group: ProfileGroup) -> ConfigView {
    (c.0, c.1.push(group))
}

/// Removing the group at `idx`: the new configuration and the removed group.
/// The selection follows its group down when an earlier group goes.
pub open spec fn spec_remove_group(c: ConfigView, idx: usize) -> Result<
    (ConfigView, ProfileGroup),
    ConfigError,
> {
    if idx >= c.1.len() {
        Err(ConfigError::RemoveOutOfBounds)
    } else if idx == c.0 {
        Err(ConfigError::RemoveSelected)
    } else {
        Ok(
            (
                (if idx < c.0 {
                    (c.0 - 1) as usize
                } else {
                    c.0
                }, c.1.remove(idx as int)),
                c.1[idx as int],
            ),
        )
    }
}

/// Removing the chosen group.
pub open spec fn spec_remove(c: ConfigView, choice: IndexChoice) -> Result<
    (ConfigView, ProfileGroup),
    ConfigError,
> {
    if c.1.len() == 0 {
        Err(ConfigError::NoGroups)
    } else {
        match spec_choice_index(choice) {
            Err(e) => Err(e),
            Ok(i) => spec_remove_group(c, i),
        }
    }
}

/// The listing line of group `i` (0-based): its 1-based number, a check mark
/// if it is the selected group, and the group.
pub open spec fn listing_line(c: ConfigView, i: int) -> Seq<char> {
    decimal((i + 1) as nat) + (if i == c.0 {
        ". \u{2713} "@
    } else {
        ".   "@
    }) + c.1[i].spec_to_string()
}

/// How a configuration is shown: one numbered line per group, or a notice
/// that there is none.
pub open spec fn spec_listing(c: ConfigView) -> Seq<char> {
    if c.1.len() == 0 {
        "i empty configuration"@
    } else {
        join(Seq::new(c.1.len(), |i: int| listing_line(c, i)), seq!['\n'])
    }
}

impl AwsomeConfig {
    /// The configuration as it is shown by `configure show`.
    pub fn to_string(&self) -> (r: String)
        ensures
            r@ == spec_listing(self@),
    {
        if self.groups.len() == 0 {
            return String::from_str("i empty configuration");
        }
        let n = self.groups.len();
        let mut out: Vec<String> = Vec::new();
        let mut i: usize = 0;
        while i < n
            invariant
                n == self.groups@.len(),
                i <= n,
                views(out@) =~= Seq::new(i as nat, |k: int| listing_line(self@, k)),
            decreases n - i,
        {
            let mut line = decimal_string(i as u128 + 1);
            if i == self.selected {
                line.append(". \u{2713} ");
            } else {
                line.append(".   ");
            }
            let g = self.groups[i].to_string();
            line.append(g.as_str());
            let ghost before = views(out@);
            out.push(line);
            assert(views(out@) =~= before.push(listing_line(self@, i as int)));
            i = i + 1;
        }
        assert("\n"@ =~= seq!['\n']) by {
            reveal_strlit("\n");
        }
        join_strs(&out, "\n")
    }

    /// An empty configuration.
    pub fn new() -> (r: AwsomeConfig)
        ensures
            r@ == (0usize, Seq::<ProfileGroup>::empty()),
    {
        AwsomeConfig { selected: 0, groups: Vec::new() }
    }

    /// Fails when no group is configured.
    pub fn ensure_groups_exist(&self) -> (r: Result<(), ConfigError>)
        ensures
            r is Ok <==> self.groups@.len() > 0,
            r is Err ==> r == Err::<(), ConfigError>(ConfigError::NoGroups),
    {
        if self.groups.len() == 0 {
            return Err(ConfigError::NoGroups);
        }
        Ok(())
    }

    /// The selected group; an error if there is none or the persisted
    /// selection is out of bounds.
    pub fn get_selected(&self) -> (r: Result<&ProfileGroup, ConfigError>)
        ensures
            match r {
                Ok(g) => spec_get_selected(self@) == Ok::<ProfileGroup, ConfigError>(*g),
                Err(e) => spec_get_selected(self@) == Err::<ProfileGroup, ConfigError>(e),
            },
    {
        self.ensure_groups_exist()?;
        if self.selected < self.groups.len() {
            Ok(&self.groups[self.selected])
        } else {
            Err(ConfigError::SelectedOutOfBounds { selected: self.selected })
        }
    }

    /// Selects the chosen group and returns (a copy of) it; on error the
    /// configuration is unchanged.
    pub fn set_selected(&mut self, choice: IndexChoice) -> (r: Result<ProfileGroup, ConfigError>)
        ensures
            match spec_set_selected(old(self)@, choice) {
                Ok((c, g)) => final(self)@ == c && r == Ok::<ProfileGroup, ConfigError>(g),
                Err(e) => final(self)@ == old(self)@ && r == Err::<ProfileGroup, ConfigError>(e),
            },
    {
        self.ensure_groups_exist()?;
        let idx = choice.index()?;
        if idx >= self.groups.len() {
            return Err(ConfigError::IndexOutOfRange { index: idx });
        }
        let group = self.groups[idx].duplicate();
        self.selected = idx;
        Ok(group)
    }

    /// Appends `group`; the selection stays.
    pub fn add(&mut self, group: ProfileGroup)
        ensures
            final(self)@ == spec_add(old(self)@, group),
    {
        self.groups.push(group);
    }

    /// Removes the chosen group and returns it; on error the configuration is
    /// unchanged.
    pub fn remove(&mut self, choice: IndexChoice) -> (r: Result<ProfileGroup, ConfigError>)
        ensures
            match spec_remove(old(self)@, choice) {
                Ok((c, g)) => final(self)@ == c && r == Ok::<ProfileGroup, ConfigError>(g),
                Err(e) => final(self)@ == old(self)@ && r == Err::<ProfileGroup, ConfigError>(e),
            },
    {
        self.ensure_groups_exist()?;
        let idx = choice.index()?;
        self.remove_group(idx)
    }

    /// Removes the group at `idx` (0-based), refusing an out-of-bounds index
    /// and the selected group; the selection keeps pointing at its group.
    pub fn remove_group(&mut self, idx: usize) -> (r: Result<ProfileGroup, ConfigError>)
        ensures
            match spec_remove_group(old(self)@, idx) {
                Ok((c, g)) => final(self)@ == c && r == Ok::<ProfileGroup, ConfigError>(g),
                Err(e) => final(self)@ == old(self)@ && r == Err::<ProfileGroup, ConfigError>(e),
            },
            r is Ok && old(self).selected < old(self).groups@.len() ==> final(self).selected
                < final(self).groups@.len() && final(self).groups@[final(self).selected as int]
                == old(self).groups@[old(self).selected as int],
    {
        if idx >= self.groups.len() {
            return Err(ConfigError::RemoveOutOfBounds);
        }
        if idx == self.selected {
            return Err(ConfigError::RemoveSelected);
        }
        if idx < self.selected {
            self.selected = self.selected - 1;
        }
        Ok(self.groups.remove(idx))
    }
}


/// How a profile or an instance was chosen.
#[derive(Debug)]
pub enum Chosen {
    /// Named on the command line.
    Given(String),
    /// Picked (0-based) from the list offered.
    Picked(usize),
}

/// The separator of the list of available profiles in an error.
pub open spec fn list_separator() -> Seq<char> {
    ", "@
}

impl AwsomeConfig {
    /// The profile for a new group: a named profile must be one of the AWS
    /// CLI's `profiles`; a picked one must exist.
    pub fn resolve_profile(profiles: &Vec<String>, chosen: Chosen) -> (r: Result<String, ConfigError>)
        ensures
            match chosen {
                Chosen::Given(p) => if views(profiles@).contains(p@) {
                    r matches Ok(q) && q@ == p@
                } else {
                    r matches Err(ConfigError::ProfileNotFound { profile, available }) && profile@
                        == p@ && available@ == join(views(profiles@), list_separator())
                },
                Chosen::Picked(i) => if i < profiles@.len() {
                    r matches Ok(q) && q@ == profiles@[i as int]@
                } else {
                    r matches Err(ConfigError::NoSuchProfile)
                },
            },
    {
        match chosen {
            Chosen::Given(p) => {
                let n = profiles.len();
                let mut i: usize = 0;
                while i < n
                    invariant
                        n == profiles@.len(),
                        i <= n,
                        chosen == Chosen::Given(p),
                        forall|k: int| 0 <= k < i ==> views(profiles@)[k] != p@,
                    decreases n - i,
                {
                    if str_eq(profiles[i].as_str(), p.as_str()) {
                        assert(views(profiles@)[i as int] == p@);
                        return Ok(p);
                    }
                    i = i + 1;
                }
                let available = join_strs(profiles, ", ");
                Err(ConfigError::ProfileNotFound { profile: p, available })
            },
            Chosen::Picked(i) => {
                if i < profiles.len() {
                    Ok(profiles[i].clone())
                } else {
                    Err(ConfigError::NoSuchProfile)
                }
            },
        }
    }

    /// The instance for a new group under `profile`: a named instance must be
    /// one of the profile's `instances`; a picked one must exist.
    pub fn resolve_instance_id(
        instances: &Vec<InstanceEntry>,
        profile: &str,
        chosen: Chosen,
    ) -> (r: Result<String, ConfigError>)
        ensures
            match chosen {
                Chosen::Given(id) => if exists|k: int|
                    0 <= k < instances@.len() && (#[trigger] instances@[k]).instance_id@ == id@ {
                    r matches Ok(q) && q@ == id@
                } else {
                    r matches Err(ConfigError::InstanceNotFound { instance_id, profile: p })
                        && instance_id@ == id@ && p@ == profile@
                },
                Chosen::Picked(i) => if i < instances@.len() {
                    r matches Ok(q) && q@ == instances@[i as int].instance_id@
                } else {
                    r matches Err(ConfigError::NoSuchInstance)
                },
            },
    {
        match chosen {
            Chosen::Given(id) => {
                let n = instances.len();
                let mut i: usize = 0;
                while i < n
                    invariant
                        n == instances@.len(),
                        i <= n,
                        chosen == Chosen::Given(id),
                        forall|k: int| 0 <= k < i ==> (#[trigger] instances@[k]).instance_id@ != id@,
                    decreases n - i,
                {
                    if str_eq(instances[i].instance_id.as_str(), id.as_str()) {
                        return Ok(id);
                    }
                    i = i + 1;
                }
                Err(ConfigError::InstanceNotFound { instance_id: id, profile: String::from_str(profile) })
            },
            Chosen::Picked(i) => {
                if i < instances.len() {
                    Ok(instances[i].instance_id.clone())
                } else {
                    Err(ConfigError::NoSuchInstance)
                }
            },
        }
    }
}


/// Selecting a group makes it the one `get_selected` returns.
pub proof fn lemma_select_then_get(c: ConfigView, choice: IndexChoice)
    requires
        spec_set_selected(c, choice) is Ok,
    ensures
        spec_get_selected(spec_set_selected(c, choice)->Ok_0.0) == Ok::<ProfileGroup, ConfigError>(
            spec_set_selected(c, choice)->Ok_0.1,
        ),
{
}

/// Removing a group (which is never the selected one) leaves the same group
/// selected, whenever the selection was valid.
pub proof fn lemma_remove_keeps_selected(c: ConfigView, choice: IndexChoice)
    requires
        spec_remove(c, choice) is Ok,
        c.0 < c.1.len(),
    ensures
        spec_get_selected(spec_remove(c, choice)->Ok_0.0) == spec_get_selected(c),
        spec_choice_index(choice) matches Ok(i) && i != c.0,
{
    let i = spec_choice_index(choice)->Ok_0;
    let c2 = spec_remove(c, choice)->Ok_0.0;
    assert(i != c.0);
    if i < c.0 {
        assert(c2.1[c2.0 as int] == c.1[c.0 as int]);
    } else {
        assert(c2.1[c2.0 as int] == c.1[c.0 as int]);
    }
}

/// Adding a group keeps a valid selection; the first group added to an empty
/// configuration whose selection is the first index becomes the selected one.
pub proof fn lemma_add_keeps_selected(c: ConfigView, group: ProfileGroup)
    ensures
        c.0 < c.1.len() ==> spec_get_selected(spec_add(c, group)) == spec_get_selected(c),
        c.1.len() == 0 && c.0 == 0 ==> spec_get_selected(spec_add(c, group)) == Ok::<
            ProfileGroup,
            ConfigError,
        >(group),
        spec_add(c, group).1.last() == group,
{
}

/// A failing operation leaves the configuration as it was, and selecting or
/// removing on an empty configuration always fails with `NoGroups`.
pub proof fn lemma_empty_config_refuses(c: ConfigView, choice: IndexChoice)
    requires
        c.1.len() == 0,
    ensures
        spec_set_selected(c, choice) matches Err(ConfigError::NoGroups),
        spec_remove(c, choice) matches Err(ConfigError::NoGroups),
        spec_get_selected(c) matches Err(ConfigError::NoGroups),
{
}

/// Removing the group at `idx` succeeds exactly when `idx` is in bounds and
/// not the selected group; it hands back that group and leaves exactly the
/// other groups, in their order: those before `idx` where they were, those
/// after it one place earlier.
pub proof fn lemma_remove_group_keeps_order(c: ConfigView, idx: usize)
    ensures
        spec_remove_group(c, idx) is Ok <==> idx < c.1.len() && idx != c.0,
        spec_remove_group(c, idx) matches Ok((c2, g)) ==> {
            &&& g == c.1[idx as int]
            &&& c2.1.len() == c.1.len() - 1
            &&& forall|j: int| 0 <= j < idx ==> #[trigger] c2.1[j] == c.1[j]
            &&& forall|j: int| idx <= j < c2.1.len() ==> #[trigger] c2.1[j] == c.1[j + 1]
        },
{
}

/// Removing the chosen group leaves exactly the other groups, in their order.
pub proof fn lemma_remove_keeps_order(c: ConfigView, choice: IndexChoice)
    ensures
        spec_remove(c, choice) matches Ok((c2, g)) ==> spec_choice_index(choice) matches Ok(idx)
            && {
            &&& g == c.1[idx as int]
            &&& c2.1.len() == c.1.len() - 1
            &&& forall|j: int| 0 <= j < idx ==> #[trigger] c2.1[j] == c.1[j]
            &&& forall|j: int| idx <= j < c2.1.len() ==> #[trigger] c2.1[j] == c.1[j + 1]
        },
{
    if spec_remove(c, choice) is Ok {
        lemma_remove_group_keeps_order(c, spec_choice_index(choice)->Ok_0);
    }
}

} // verus!
