//! Channels and the drives that hold their files.
use crate::api::teams;
use crate::api::teams::{ChannelInfoV, TeamInfo, TeamInfoV};
use vstd::prelude::*;

verus! {

/// A channel and its team, by id and by name.
pub struct ChannelPlace {
    pub team_id: String,
    pub team: String,
    pub channel_id: String,
    pub channel: String,
}

/// The model of [`ChannelPlace`].
pub struct ChannelPlaceV {
    pub team_id: Seq<char>,
    pub team: Seq<char>,
    pub channel_id: Seq<char>,
    pub channel: Seq<char>,
}

impl View for ChannelPlace {
    type V = ChannelPlaceV;

    open spec fn view(&self) -> ChannelPlaceV {
        ChannelPlaceV {
            team_id: self.team_id@,
            team: self.team@,
            channel_id: self.channel_id@,
            channel: self.channel@,
        }
    }
}
/// A list of [`ChannelPlace`] by their models.
pub open spec fn channel_place_views(v: Seq<ChannelPlace>) -> Seq<ChannelPlaceV> {
    Seq::new(v.len(), |i: int| v[i]@)
}
/// The drive and the folder of a channel, and the names to show.
pub struct ChannelDrive {
    pub team: String,
    pub channel: String,
    pub drive_id: String,
    pub folder_id: String,
}

/// The model of [`ChannelDrive`].
pub struct ChannelDriveV {
    pub team: Seq<char>,
    pub channel: Seq<char>,
    pub drive_id: Seq<char>,
    pub folder_id: Seq<char>,
}

impl View for ChannelDrive {
    type V = ChannelDriveV;

    open spec fn view(&self) -> ChannelDriveV {
        ChannelDriveV {
            team: self.team@,
            channel: self.channel@,
            drive_id: self.drive_id@,
            folder_id: self.folder_id@,
        }
    }
}
/// A list of [`ChannelDrive`] by their models.
pub open spec fn channel_drive_views(v: Seq<ChannelDrive>) -> Seq<ChannelDriveV> {
    Seq::new(v.len(), |i: int| v[i]@)
}

/// Teams that may be missing, by their models.
pub open spec fn opt_teams(t: Option<Vec<TeamInfo>>) -> Option<Seq<TeamInfoV>> {
    match t {
        Some(l) => Some(teams::team_info_views(l@)),
        None => None,
    }
}

/// The place of a channel of a team.
pub open spec fn place_of(team: TeamInfoV, channel: ChannelInfoV) -> ChannelPlaceV {
    ChannelPlaceV {
        team_id: team.id,
        team: team.name,
        channel_id: channel.id,
        channel: channel.name,
    }
}

/// The places of the channels of teams, in order.
pub open spec fn places_of(teams: Seq<TeamInfoV>) -> Seq<ChannelPlaceV>
    decreases teams.len(),
{
    if teams.len() == 0 {
        Seq::empty()
    } else {
        places_of(teams.drop_last()) + Seq::new(
            teams.last().channels.len(),
            |i: int| place_of(teams.last(), teams.last().channels[i]),
        )
    }
}

fn team_places(team: &TeamInfo) -> (r: Vec<ChannelPlace>)
    ensures
        channel_place_views(r@) == Seq::new(
            team@.channels.len(),
            |i: int| place_of(team@, team@.channels[i]),
        ),
{
    let mut out: Vec<ChannelPlace> = Vec::new();
    let mut i: usize = 0;
    while i < team.channels.len()
        invariant
            i <= team.channels@.len(),
            out@.len() == i,
            forall|j: int|
                0 <= j < i ==> (#[trigger] out@[j])@ == place_of(team@, team@.channels[j]),
        decreases team.channels@.len() - i,
    {
        assert(team@.channels[i as int] == team.channels@[i as int]@);
        out.push(
            ChannelPlace {
                team_id: team.id.clone(),
                team: team.name.clone(),
                channel_id: team.channels[i].id.clone(),
                channel: team.channels[i].name.clone(),
            },
        );
        i = i + 1;
    }
    proof {
        assert(channel_place_views(out@) =~= Seq::new(
            team@.channels.len(),
            |i: int| place_of(team@, team@.channels[i]),
        ));
    }
    out
}

/// The places of the channels of teams, in order.
pub fn channel_places(teams: &Vec<TeamInfo>) -> (r: Vec<ChannelPlace>)
    ensures
        channel_place_views(r@) == places_of(teams::team_info_views(teams@)),
{
    let ghost all = teams::team_info_views(teams@);
    let mut out: Vec<ChannelPlace> = Vec::new();
    let mut i: usize = 0;
    proof {
        assert(all.take(0) =~= Seq::empty());
        assert(channel_place_views(out@) =~= Seq::empty());
    }
    while i < teams.len()
        invariant
            i <= teams@.len(),
            all == teams::team_info_views(teams@),
            channel_place_views(out@) == places_of(all.take(i as int)),
        decreases teams@.len() - i,
    {
        proof {
            assert(all.take(i + 1).drop_last() =~= all.take(i as int));
            assert(all.take(i + 1).last() == teams@[i as int]@);
        }
        let mut more = team_places(&teams[i]);
        let ghost before = out@;
        let ghost added = more@;
        out.append(&mut more);
        proof {
            assert(channel_place_views(out@) =~= channel_place_views(before) + channel_place_views(
                added,
            ));
        }
        i = i + 1;
    }
    proof {
        assert(all.take(i as int) =~= all);
    }
    out
}

/// The channels of the teams are listed team by team, each with the team that it belongs
/// to, in the order in which they came.
pub proof fn law_channels_stand_by_teams(a: Seq<TeamInfoV>, team: TeamInfoV, i: int)
    ensures
        places_of(a.push(team)).len() == places_of(a).len() + team.channels.len(),
        places_of(a.push(team)).take(places_of(a).len() as int) == places_of(a),
        0 <= i < team.channels.len() ==> ({
            let p = places_of(a.push(team))[places_of(a).len() + i];
            &&& p.team_id == team.id
            &&& p.team == team.name
            &&& p.channel_id == team.channels[i].id
            &&& p.channel == team.channels[i].name
        }),
        places_of(Seq::empty()).len() == 0,
{
    assert(a.push(team).drop_last() =~= a);
    assert(places_of(a.push(team)).take(places_of(a).len() as int) =~= places_of(a));
}

} // verus!
