use vstd::prelude::*;

verus! {

/// Account and endpoint settings read from the configuration file.
pub struct UserinfoConfig {
    pub username: String,
    pub password: String,
    pub url1: String,
    pub url2: String,
    pub url3: String,
    pub login_url: String,
    pub forum_url: String,
    pub chrome_driver: String,
}

/// When the daily check-in runs, as a six-field cron expression in local time.
pub struct ScheduleConfig {
    pub cron: String,
}

/// Whether logging is switched on, and at which level.
pub struct LogConfig {
    pub enable: bool,
    pub level: String,
}

/// The whole configuration file.
pub struct MyConfig {
    pub userinfo: UserinfoConfig,
    pub schedule: ScheduleConfig,
    pub log: LogConfig,
}

impl Clone for UserinfoConfig {
    fn clone(&self) -> (res: Self)
        ensures
            res == *self,
    {
        UserinfoConfig {
            username: self.username.clone(),
            password: self.password.clone(),
            url1: self.url1.clone(),
            url2: self.url2.clone(),
            url3: self.url3.clone(),
            login_url: self.login_url.clone(),
            forum_url: self.forum_url.clone(),
            chrome_driver: self.chrome_driver.clone(),
        }
    }
}

impl Clone for ScheduleConfig {
    fn clone(&self) -> (res: Self)
        ensures
            res == *self,
    {
        ScheduleConfig { cron: self.cron.clone() }
    }
}

impl Clone for LogConfig {
    fn clone(&self) -> (res: Self)
        ensures
            res == *self,
    {
        LogConfig { enable: self.enable, level: self.level.clone() }
    }
}

impl Clone for MyConfig {
    fn clone(&self) -> (res: Self)
        ensures
            res == *self,
    {
        MyConfig {
            userinfo: self.userinfo.clone(),
            schedule: self.schedule.clone(),
            log: self.log.clone(),
        }
    }
}

impl MyConfig {
    /// A copy of the account settings.
    pub fn get_userinfo(&self) -> (res: UserinfoConfig)
        ensures
            res == self.userinfo,
    {
        self.userinfo.clone()
    }

    /// A copy of the schedule settings.
    pub fn get_schedule(&self) -> (res: ScheduleConfig)
        ensures
            res == self.schedule,
    {
        self.schedule.clone()
    }

    /// A copy of the log settings.
    pub fn get_log(&self) -> (res: LogConfig)
        ensures
            res == self.log,
    {
        self.log.clone()
    }
}

} // verus!
